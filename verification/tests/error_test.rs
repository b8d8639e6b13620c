use git_issues::error::IssueError;

#[test]
fn messages_name_what_failed() {
    let cases: Vec<(IssueError, &str)> = vec![
        (
            IssueError::Spawn { command: "status -sb".into(), cause: "not found".into() },
            "failed to spawn `git status -sb`",
        ),
        (
            IssueError::GitFailed { command: "remote".into(), stderr: "fatal: bad".into() },
            "`git remote` failed: fatal: bad",
        ),
        (
            IssueError::NotInRepository {
                source: Box::new(IssueError::GitFailed { command: "x".into(), stderr: "y".into() }),
            },
            "not inside a git repository",
        ),
        (
            IssueError::GitTooOld { found: "git version 2.41.9".into() },
            "git >= 2.42 is required for `worktree add --orphan`; found: git version 2.41.9",
        ),
        (IssueError::CurrentDir { cause: "gone".into() }, "cannot determine current directory"),
        (
            IssueError::WorktreeMissing { path: "/wt".into() },
            "issues worktree not found at /wt\nRun `git issues init` first.",
        ),
        (IssueError::NoSuchIssue { id: "abc".into() }, "no such issue: abc"),
        (
            IssueError::EditorLaunch { editor: "vim".into(), cause: "no sh".into() },
            "failed to launch editor (vim)",
        ),
        (IssueError::EditorFailed, "editor exited with a non-zero status"),
        (IssueError::CannotRead { path: "/a".into(), cause: "c".into() }, "cannot read /a"),
        (IssueError::CannotWrite { path: "/a".into(), cause: "c".into() }, "cannot write /a"),
        (IssueError::CannotCreate { path: "/a".into(), cause: "c".into() }, "cannot create /a"),
        (
            IssueError::NotAWorktree { path: "/wt".into() },
            "/wt already exists but is not a git worktree; remove it or choose another --path",
        ),
        (
            IssueError::WorktreeCreate { attach: "a".into(), orphan: "o".into() },
            "failed to create issues worktree.\n  attach attempt: a\n  orphan attempt: o",
        ),
        (IssueError::CannotCreateIssuesDir { cause: "c".into() }, "cannot create issues/"),
        (IssueError::CannotSeedIssuesDir { cause: "c".into() }, "cannot seed issues/"),
        (IssueError::TitleRequired, "an issue title is required"),
        (IssueError::NoRemote, "no remote configured for this repository; nothing to sync"),
        (
            IssueError::MergeConflict,
            "merge conflict while syncing — resolve it inside the issues worktree, then re-run `git issues sync`",
        ),
        (IssueError::PushFailed, "push failed"),
    ];
    for (e, m) in cases {
        assert_eq!(e.message(), m);
    }
}

#[test]
fn causes_come_from_the_failure_behind() {
    assert_eq!(IssueError::Spawn { command: "x".into(), cause: "not found".into() }.cause(), Some("not found".to_string()));
    assert_eq!(IssueError::CannotRead { path: "/a".into(), cause: "denied".into() }.cause(), Some("denied".to_string()));
    assert_eq!(IssueError::NoRemote.cause(), None);
    assert_eq!(IssueError::GitFailed { command: "x".into(), stderr: "y".into() }.cause(), None);
}
