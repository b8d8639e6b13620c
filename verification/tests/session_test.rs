use git_issues::cmd::{self, issue_id, issue_path, issue_rel, Session, Skill};
use git_issues::error::IssueError;
use git_issues::git::GitOutput;
use git_issues::request::{Reply, Request};

fn ok(stdout: &str) -> Reply {
    Reply::Git { out: Ok(GitOutput { success: true, stdout: stdout.to_string(), stderr: String::new() }) }
}

fn failed(stderr: &str) -> Reply {
    Reply::Git { out: Ok(GitOutput { success: false, stdout: String::new(), stderr: stderr.to_string() }) }
}

fn done() -> Reply {
    Reply::Done { result: Ok(()) }
}

fn step(s: Session, reply: Reply) -> (Session, Request) {
    assert!(s.accepts_reply(&reply), "reply out of turn");
    s.step(reply)
}

fn expect_git(r: &Request, args: &[&str], inherit: bool) {
    match r {
        Request::Git { args: a, inherit: i } => {
            assert_eq!(a, &args.iter().map(|s| s.to_string()).collect::<Vec<_>>());
            assert_eq!(*i, inherit);
        }
        _ => panic!("expected a git request"),
    }
}

/// Resolves settings: root /repo, branch meta/issues (default), worktree /wt,
/// remote listing `remotes`.
fn resolved(start: (Session, Request), remotes: &str) -> (Session, Request) {
    let (s, r) = start;
    expect_git(&r, &["rev-parse", "--show-toplevel"], false);
    let (s, r) = step(s, ok("/repo\n"));
    expect_git(&r, &["config", "--get", "issues.branch"], false);
    let (s, r) = step(s, failed(""));
    expect_git(&r, &["config", "--get", "issues.worktreepath"], false);
    let (s, r) = step(s, ok("/wt\n"));
    expect_git(&r, &["remote"], false);
    step(s, ok(remotes))
}

#[test]
fn path_prints_the_worktree() {
    let (s, r) = resolved(cmd::path(), "");
    match &r {
        Request::Print { text, newline } => {
            assert_eq!(text, "/wt");
            assert!(*newline);
        }
        _ => panic!("expected a print"),
    }
    let (_, r) = step(s, done());
    assert!(matches!(r, Request::Finish { result: Ok(()) }));
}

#[test]
fn outside_a_repository_fails() {
    let (s, _) = cmd::show("x");
    let (_, r) = step(s, failed("fatal: not a git repository"));
    assert!(matches!(r, Request::Finish { result: Err(IssueError::NotInRepository { .. }) }));
}

#[test]
fn missing_worktree_is_reported() {
    let (s, r) = resolved(cmd::list(None, None), "");
    match &r {
        Request::Exists { path } => assert_eq!(path, "/wt/.git"),
        _ => panic!("expected an existence check"),
    }
    let (_, r) = step(s, Reply::Exists { found: false });
    match r {
        Request::Finish { result: Err(IssueError::WorktreeMissing { path }) } => assert_eq!(path, "/wt"),
        _ => panic!("expected a missing worktree"),
    }
}

#[test]
fn sync_without_remote_fails() {
    let (s, _) = resolved(cmd::sync(), "");
    let (_, r) = step(s, Reply::Exists { found: true });
    assert!(matches!(r, Request::Finish { result: Err(IssueError::NoRemote) }));
}

#[test]
fn sync_fetches_merges_and_pushes() {
    let (s, _) = resolved(cmd::sync(), "upstream\norigin\n");
    let (s, r) = step(s, Reply::Exists { found: true });
    expect_git(&r, &["-C", "/wt", "fetch", "origin", "meta/issues"], false);
    let (s, r) = step(s, ok(""));
    expect_git(&r, &["-C", "/wt", "merge", "--no-edit", "FETCH_HEAD"], true);
    let (s, r) = step(s, ok(""));
    expect_git(&r, &["-C", "/wt", "push", "-u", "origin", "meta/issues"], true);
    let (s, r) = step(s, ok(""));
    match &r {
        Request::Print { text, .. } => assert_eq!(text, "Synced with origin/meta/issues"),
        _ => panic!("expected the report"),
    }
    let (_, r) = step(s, done());
    assert!(matches!(r, Request::Finish { result: Ok(()) }));
}

#[test]
fn a_failed_fetch_skips_the_merge() {
    let (s, _) = resolved(cmd::sync(), "origin\n");
    let (s, _) = step(s, Reply::Exists { found: true });
    let (s, r) = step(s, failed("couldn't find remote ref"));
    expect_git(&r, &["-C", "/wt", "push", "-u", "origin", "meta/issues"], true);
    let (_, r) = step(s, failed(""));
    assert!(matches!(r, Request::Finish { result: Err(IssueError::PushFailed) }));
}

#[test]
fn close_updates_status_and_commits() {
    let (s, _) = resolved(cmd::set_status("fix-it-ab12.md", "closed", false), "");
    let (s, r) = step(s, Reply::Exists { found: true });
    match &r {
        Request::Exists { path } => assert_eq!(path, "/wt/issues/fix-it-ab12.md"),
        _ => panic!("expected the issue check"),
    }
    let (s, r) = step(s, Reply::Exists { found: true });
    assert!(matches!(r, Request::ReadFile { .. }));
    let raw = "---\nid: fix-it-ab12\nstatus: open\n---\n\nbody\n".to_string();
    let (s, r) = step(s, Reply::Read { text: Ok(raw) });
    match &r {
        Request::WriteFile { path, contents } => {
            assert_eq!(path, "/wt/issues/fix-it-ab12.md");
            assert!(contents.starts_with("---\nid: fix-it-ab12\nstatus: closed\nupdated: "));
            assert!(contents.ends_with("\n---\n\nbody\n"));
        }
        _ => panic!("expected the write"),
    }
    let (s, r) = step(s, done());
    expect_git(&r, &["-C", "/wt", "add", "issues/fix-it-ab12.md"], false);
    let (s, r) = step(s, ok(""));
    expect_git(&r, &["-C", "/wt", "commit", "-m", "issues: closed fix-it-ab12.md"], false);
    let (s, r) = step(s, ok(""));
    match &r {
        Request::Print { text, .. } => assert_eq!(text, "Marked fix-it-ab12.md as closed"),
        _ => panic!("expected the report"),
    }
    let (_, r) = step(s, done());
    assert!(matches!(r, Request::Finish { result: Ok(()) }));
}

#[test]
fn unknown_issue_is_reported() {
    let (s, _) = resolved(cmd::show("nope"), "");
    let (s, _) = step(s, Reply::Exists { found: true });
    let (_, r) = step(s, Reply::Exists { found: false });
    match r {
        Request::Finish { result: Err(IssueError::NoSuchIssue { id }) } => assert_eq!(id, "nope"),
        _ => panic!("expected no such issue"),
    }
}

#[test]
fn show_prints_the_file_as_is() {
    let (s, _) = resolved(cmd::show("a"), "");
    let (s, _) = step(s, Reply::Exists { found: true });
    let (s, _) = step(s, Reply::Exists { found: true });
    let (_, r) = step(s, Reply::Read { text: Ok("raw text".to_string()) });
    match r {
        Request::Print { text, newline } => {
            assert_eq!(text, "raw text");
            assert!(!newline);
        }
        _ => panic!("expected a print"),
    }
}

#[test]
fn new_refuses_a_blank_title() {
    let (s, _) = resolved(cmd::new(&["  ".to_string()], false), "");
    let (_, r) = step(s, Reply::Exists { found: true });
    assert!(matches!(r, Request::Finish { result: Err(IssueError::TitleRequired) }));
}

#[test]
fn new_writes_edits_and_commits() {
    let title = vec!["Fix".to_string(), "the".to_string(), "bug".to_string()];
    let (s, _) = resolved(cmd::new(&title, false), "");
    let (s, r) = step(s, Reply::Exists { found: true });
    let id = match &r {
        Request::WriteFile { path, contents } => {
            assert!(path.starts_with("/wt/issues/fix-the-bug-"));
            assert!(contents.contains("\ntitle: Fix the bug\nstatus: open\nlabels: \ncreated: "));
            let name = path.trim_start_matches("/wt/issues/").trim_end_matches(".md").to_string();
            assert_eq!(name.len(), "fix-the-bug-".len() + 4);
            name
        }
        _ => panic!("expected the write"),
    };
    let (s, r) = step(s, done());
    expect_git(&r, &["var", "GIT_EDITOR"], false);
    let (s, r) = step(s, ok("vim\n"));
    match &r {
        Request::Editor { script, file } => {
            assert_eq!(script, "vim \"$1\"");
            assert_eq!(file, &format!("/wt/issues/{id}.md"));
        }
        _ => panic!("expected the editor"),
    }
    let (s, r) = step(s, Reply::Editor { status: Ok(true) });
    expect_git(&r, &["-C", "/wt", "add", &format!("issues/{id}.md")], false);
    let (s, r) = step(s, ok(""));
    expect_git(&r, &["-C", "/wt", "commit", "-m", &format!("issues: add {id}")], false);
    let (s, r) = step(s, ok(""));
    match &r {
        Request::Print { text, .. } => assert_eq!(text, &format!("Created {id}")),
        _ => panic!("expected the report"),
    }
    let (_, r) = step(s, done());
    assert!(matches!(r, Request::Finish { result: Ok(()) }));
}

#[test]
fn a_failing_editor_stops_edit() {
    let (s, _) = resolved(cmd::edit("x", false), "");
    let (s, _) = step(s, Reply::Exists { found: true });
    let (s, _) = step(s, Reply::Exists { found: true });
    let (s, _) = step(s, ok("nano"));
    let (_, r) = step(s, Reply::Editor { status: Ok(false) });
    assert!(matches!(r, Request::Finish { result: Err(IssueError::EditorFailed) }));
}

#[test]
fn list_reads_md_files_and_prints_sorted_rows() {
    let (s, _) = resolved(cmd::list(Some("open".into()), None), "");
    let (s, r) = step(s, Reply::Exists { found: true });
    match &r {
        Request::ReadDir { path } => assert_eq!(path, "/wt/issues"),
        _ => panic!("expected the listing"),
    }
    let names = vec!["b.md".to_string(), "notes.txt".to_string(), ".gitkeep".to_string(), "a.md".to_string()];
    let (s, r) = step(s, Reply::Dir { names: Ok(names) });
    match &r {
        Request::ReadFile { path } => assert_eq!(path, "/wt/issues/b.md"),
        _ => panic!("expected a read"),
    }
    let (s, r) = step(s, Reply::Read { text: Ok("---\nid: zeta-aaaa\nstatus: open\ntitle: Z\n---\n".into()) });
    match &r {
        Request::ReadFile { path } => assert_eq!(path, "/wt/issues/a.md"),
        _ => panic!("expected a read"),
    }
    let (s, r) = step(s, Reply::Read { text: Ok("---\nid: alpha-bbbb\nstatus: open\ntitle: A\n---\n".into()) });
    match &r {
        Request::Print { text, .. } => assert_eq!(text, "alpha-bbbb  open  A"),
        _ => panic!("expected the first row"),
    }
    let (s, r) = step(s, done());
    match &r {
        Request::Print { text, .. } => assert_eq!(text, "zeta-aaaa   open  Z"),
        _ => panic!("expected the second row"),
    }
    let (_, r) = step(s, done());
    assert!(matches!(r, Request::Finish { result: Ok(()) }));
}

#[test]
fn list_with_nothing_selected_says_so() {
    let (s, _) = resolved(cmd::list(None, Some("docs".into())), "");
    let (s, _) = step(s, Reply::Exists { found: true });
    let (s, _) = step(s, Reply::Dir { names: Ok(vec!["a.md".into()]) });
    let (_, r) = step(s, Reply::Read { text: Ok("---\nlabels: bug\n---\n".into()) });
    match r {
        Request::Print { text, .. } => assert_eq!(text, "No issues found."),
        _ => panic!("expected the empty report"),
    }
}

#[test]
fn init_refuses_old_git() {
    let (s, r) = cmd::init(None, None, None);
    expect_git(&r, &["--version"], false);
    let (_, r) = step(s, ok("git version 2.30.1\n"));
    assert!(matches!(r, Request::Finish { result: Err(IssueError::GitTooOld { .. }) }));
}

#[test]
fn init_creates_an_orphan_branch_when_none_attaches() {
    let (s, _) = cmd::init(Some("meta/x".into()), Some("rel/wt".into()), None);
    let (s, r) = step(s, ok("git version 2.43.0\n"));
    expect_git(&r, &["rev-parse", "--show-toplevel"], false);
    let (s, r) = step(s, ok("/repo\n"));
    expect_git(&r, &["config", "issues.branch", "meta/x"], false);
    let (s, r) = step(s, ok(""));
    assert!(matches!(r, Request::CurrentDir));
    let (s, r) = step(s, Reply::CurrentDir { dir: Ok("/home/u".into()) });
    expect_git(&r, &["config", "issues.worktreepath", "/home/u/rel/wt"], false);
    let (s, r) = step(s, ok(""));
    expect_git(&r, &["rev-parse", "--show-toplevel"], false);
    let (s, _) = step(s, ok("/repo\n"));
    let (s, _) = step(s, ok("meta/x\n"));
    let (s, _) = step(s, ok("/home/u/rel/wt\n"));
    let (s, r) = step(s, ok(""));
    match &r {
        Request::Exists { path } => assert_eq!(path, "/home/u/rel/wt/.git"),
        _ => panic!("expected the worktree check"),
    }
    let (s, _) = step(s, Reply::Exists { found: false });
    let (s, r) = step(s, Reply::Exists { found: false });
    expect_git(&r, &["worktree", "add", "/home/u/rel/wt", "meta/x"], false);
    let (s, r) = step(s, failed("invalid reference: meta/x\n"));
    expect_git(&r, &["worktree", "add", "--orphan", "-b", "meta/x", "/home/u/rel/wt"], false);
    let (s, r) = step(s, ok(""));
    match &r {
        Request::CreateDirAll { path } => assert_eq!(path, "/home/u/rel/wt/issues"),
        _ => panic!("expected the directory"),
    }
    let (s, r) = step(s, done());
    match &r {
        Request::WriteFile { path, contents } => {
            assert_eq!(path, "/home/u/rel/wt/issues/.gitkeep");
            assert_eq!(contents, "");
        }
        _ => panic!("expected the seed"),
    }
    let (s, r) = step(s, done());
    expect_git(&r, &["-C", "/home/u/rel/wt", "add", "issues/.gitkeep"], false);
    let (s, r) = step(s, ok(""));
    expect_git(&r, &["-C", "/home/u/rel/wt", "commit", "-m", "Initialize git-issues"], false);
    let (s, r) = step(s, ok(""));
    match &r {
        Request::Print { text, .. } => {
            assert_eq!(text, "Created issues branch 'meta/x' at /home/u/rel/wt")
        }
        _ => panic!("expected the report"),
    }
    let (_, r) = step(s, done());
    assert!(matches!(r, Request::Finish { result: Ok(()) }));
}

#[test]
fn init_reports_both_failed_attempts() {
    let (s, _) = cmd::init(None, None, None);
    let (s, _) = step(s, ok("git version 2.45.0"));
    let (s, _) = resolved_after_root(s);
    let (s, _) = step(s, Reply::Exists { found: false });
    let (s, r) = step(s, Reply::Exists { found: false });
    expect_git(&r, &["fetch", "origin", "meta/issues"], false);
    let (s, r) = step(s, Reply::Git { out: Err("spawn".into()) });
    expect_git(&r, &["worktree", "add", "/wt", "meta/issues"], false);
    let (s, _) = step(s, failed(" attach failed \n"));
    let (_, r) = step(s, failed("orphan failed"));
    match r {
        Request::Finish { result: Err(IssueError::WorktreeCreate { attach, orphan }) } => {
            assert_eq!(attach, "attach failed");
            assert_eq!(orphan, "orphan failed");
        }
        _ => panic!("expected both attempts"),
    }
}

/// From the root on (no skill, no branch, no path): resolves to /wt with
/// remote origin.
fn resolved_after_root(s: Session) -> (Session, Request) {
    let (s, r) = step(s, ok("/repo\n"));
    expect_git(&r, &["rev-parse", "--show-toplevel"], false);
    let (s, _) = step(s, ok("/repo\n"));
    let (s, _) = step(s, failed(""));
    let (s, _) = step(s, ok("/wt"));
    step(s, ok("origin\n"))
}

#[test]
fn init_installs_the_skill_unless_present() {
    let skill = Skill {
        label: "Helper".into(),
        rel: ".assistant/skills/git-issues/SKILL.md".into(),
        text: "skill text".into(),
    };
    let (s, _) = cmd::init(None, None, Some(skill));
    let (s, _) = step(s, ok("git version 2.45.0"));
    let (s, r) = step(s, ok("/repo\n"));
    match &r {
        Request::Exists { path } => assert_eq!(path, "/repo/.assistant/skills/git-issues/SKILL.md"),
        _ => panic!("expected the skill check"),
    }
    let (s, r) = step(s, Reply::Exists { found: false });
    match &r {
        Request::CreateDirAll { path } => assert_eq!(path, "/repo/.assistant/skills/git-issues"),
        _ => panic!("expected the skill directory"),
    }
    let (s, r) = step(s, done());
    match &r {
        Request::WriteFile { path, contents } => {
            assert_eq!(path, "/repo/.assistant/skills/git-issues/SKILL.md");
            assert_eq!(contents, "skill text");
        }
        _ => panic!("expected the skill file"),
    }
    let (s, r) = step(s, done());
    match &r {
        Request::Print { text, .. } => {
            assert_eq!(text, "Installed Helper skill to .assistant/skills/git-issues/SKILL.md")
        }
        _ => panic!("expected the report"),
    }
    let (_, r) = step(s, done());
    expect_git(&r, &["rev-parse", "--show-toplevel"], false);
}

#[test]
fn issue_files_drop_a_trailing_md() {
    assert_eq!(issue_id("abc.md"), "abc");
    assert_eq!(issue_id("abc"), "abc");
    assert_eq!(issue_id("md"), "md");
    assert_eq!(issue_path("/wt", "abc.md"), "/wt/issues/abc.md");
    assert_eq!(issue_rel("abc"), "issues/abc.md");
}

/// A reply of the kind `r` asks for, or `None` for a request to finish.
fn answer_to(r: &Request) -> Option<Reply> {
    match r {
        Request::Git { .. } => Some(ok("")),
        Request::Exists { .. } => Some(Reply::Exists { found: true }),
        Request::ReadFile { .. } => Some(Reply::Read { text: Ok("body".to_string()) }),
        Request::WriteFile { .. } | Request::CreateDirAll { .. } | Request::Print { .. } => Some(done()),
        Request::ReadDir { .. } => Some(Reply::Dir { names: Ok(vec!["a.md".to_string()]) }),
        Request::CurrentDir => Some(Reply::CurrentDir { dir: Ok("/home".to_string()) }),
        Request::Editor { .. } => Some(Reply::Editor { status: Ok(true) }),
        Request::Finish { .. } => None,
    }
}

#[test]
fn every_step_waits_for_the_answer_it_asks_for() {
    let starts = vec![
        cmd::show("a"),
        cmd::list(None, None),
        cmd::edit("a", true),
        cmd::set_status("a", "closed", false),
        cmd::sync(),
        cmd::path(),
        cmd::status(),
        cmd::new(&["A".to_string(), "title".to_string()], true),
        cmd::init(None, None, None),
        cmd::complete_ids(),
    ];
    for (mut s, mut r) in starts {
        let mut steps = 0;
        loop {
            let finished = matches!(s, Session::Finished);
            assert_eq!(finished, matches!(r, Request::Finish { .. }));
            match answer_to(&r) {
                None => break,
                Some(reply) => {
                    assert!(s.accepts_reply(&reply));
                    let next = s.step(reply);
                    s = next.0;
                    r = next.1;
                }
            }
            steps += 1;
            assert!(steps < 100, "the subcommand should end");
        }
    }
}

#[test]
fn init_on_an_existing_worktree_only_reports() {
    let (s, _) = cmd::init(None, None, None);
    let (s, _) = step(s, ok("git version 2.45.0"));
    let (s, r) = resolved_after_root(s);
    match &r {
        Request::Exists { path } => assert_eq!(path, "/wt/.git"),
        _ => panic!("expected the worktree check"),
    }
    let (s, r) = step(s, Reply::Exists { found: true });
    match &r {
        Request::Print { text, newline } => {
            assert_eq!(text, "Already initialized: branch 'meta/issues' at /wt");
            assert!(*newline);
        }
        _ => panic!("expected the report"),
    }
    let (_, r) = step(s, done());
    assert!(matches!(r, Request::Finish { result: Ok(()) }));
}

#[test]
fn complete_ids_prints_sorted_ids_and_skips_unreadable_files() {
    let (s, _) = resolved(cmd::complete_ids(), "");
    let (s, r) = step(s, Reply::Exists { found: true });
    match &r {
        Request::ReadDir { path } => assert_eq!(path, "/wt/issues"),
        _ => panic!("expected the listing"),
    }
    let names = vec!["zz.md".to_string(), "bad.md".to_string(), ".gitkeep".to_string(), "mm.md".to_string()];
    let (s, r) = step(s, Reply::Dir { names: Ok(names) });
    match &r {
        Request::ReadFile { path } => assert_eq!(path, "/wt/issues/zz.md"),
        _ => panic!("expected a read"),
    }
    let (s, _) = step(s, Reply::Read { text: Ok("---\nid: alpha-1234\n---\n".into()) });
    let (s, r) = step(s, Reply::Read { text: Err("denied".into()) });
    match &r {
        Request::ReadFile { path } => assert_eq!(path, "/wt/issues/mm.md"),
        _ => panic!("expected a read"),
    }
    let (s, r) = step(s, Reply::Read { text: Ok("no front matter".into()) });
    match &r {
        Request::Print { text, newline } => {
            assert_eq!(text, "alpha-1234");
            assert!(*newline);
        }
        _ => panic!("expected the first ID"),
    }
    let (s, r) = step(s, done());
    match &r {
        Request::Print { text, .. } => assert_eq!(text, "mm"),
        _ => panic!("expected the second ID"),
    }
    let (_, r) = step(s, done());
    assert!(matches!(r, Request::Finish { result: Ok(()) }));
}

#[test]
fn complete_ids_never_fails() {
    let (s, _) = cmd::complete_ids();
    let (_, r) = step(s, failed("fatal: not a git repository"));
    assert!(matches!(r, Request::Finish { result: Ok(()) }));

    let (s, _) = resolved(cmd::complete_ids(), "");
    let (_, r) = step(s, Reply::Exists { found: false });
    assert!(matches!(r, Request::Finish { result: Ok(()) }));

    let (s, _) = resolved(cmd::complete_ids(), "");
    let (s, _) = step(s, Reply::Exists { found: true });
    let (_, r) = step(s, Reply::Dir { names: Err("denied".into()) });
    assert!(matches!(r, Request::Finish { result: Ok(()) }));

    let (s, _) = resolved(cmd::complete_ids(), "");
    let (s, _) = step(s, Reply::Exists { found: true });
    let (_, r) = step(s, Reply::Dir { names: Ok(vec!["notes.txt".into()]) });
    assert!(matches!(r, Request::Finish { result: Ok(()) }));
}
