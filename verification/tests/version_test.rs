use git_issues::error::IssueError;
use git_issues::version::{ensure_version, git_version, parse_number};

#[test]
fn reads_major_and_minor() {
    assert_eq!(git_version("git version 2.43.0"), (2, 43));
    assert_eq!(git_version("git version 2.42.0.windows.1\n"), (2, 42));
    assert_eq!(git_version("git version 3.0"), (3, 0));
    assert_eq!(git_version(""), (0, 0));
    assert_eq!(git_version("git version 2.x.45"), (2, 45));
    assert_eq!(git_version("git version +2.+50"), (2, 50));
    assert_eq!(git_version("git version 2.50.1 (Apple Git-155)"), (2, 50));
    assert_eq!(git_version("  2.44.1  "), (2, 44));
}

#[test]
fn recent_git_is_accepted() {
    assert!(ensure_version("git version 2.43.0").is_ok());
    assert!(ensure_version("git version 2.42.0").is_ok());
    assert!(ensure_version("git version 10.1").is_ok());
    assert!(ensure_version("git version 3.0.0").is_ok());
    assert!(ensure_version("git version 2.42.0.windows.1").is_ok());
    assert!(ensure_version("git version 2.50.1 (Apple Git-155)").is_ok());
}

#[test]
fn old_git_is_refused_with_its_line() {
    match ensure_version("git version 2.41.9") {
        Err(IssueError::GitTooOld { found }) => assert_eq!(found, "git version 2.41.9"),
        _ => panic!("expected a refusal"),
    }
    assert!(ensure_version("git version unknown").is_err());
}

#[test]
fn numbers_parse_as_u32_does() {
    let p = |s: &str| parse_number(&s.chars().collect::<Vec<char>>());
    assert_eq!(p("42"), Some(42));
    assert_eq!(p("+7"), Some(7));
    assert_eq!(p("4294967295"), Some(u32::MAX));
    assert_eq!(p("4294967296"), None);
    assert_eq!(p(""), None);
    assert_eq!(p("+"), None);
    assert_eq!(p("-1"), None);
    assert_eq!(p("1a"), None);
}
