//! The subcommands, as conversations: each step takes the answer to the last
//! request and says what to do next.

use vstd::prelude::*;
use crate::config::{Resolve, Settings, Step, opt_model, resolve};
use crate::error::IssueError;
use crate::frontmatter::Document;
use crate::git::{GitOutput, capture, capture_spec, captured_model, command_line, join_args, output_model, strs};
use crate::path::{join_path, path_join};
use crate::request::{Reply, Request, answers, is_exists, is_git, is_print, is_read, is_write, is_finish_ok};
use crate::text::{push_str, trim};

verus! {

// ---------------------------------------------------------------------------
// Shared pieces
// ---------------------------------------------------------------------------

/// What a git reply carries.
pub open spec fn git_out(reply: Reply) -> Result<(bool, Seq<char>, Seq<char>), Seq<char>>
    recommends
        reply is Git,
{
    output_model(reply->Git_out)
}

/// The error is what `capture` reports for this failure.
pub open spec fn is_capture_error(e: IssueError, m: (bool, Seq<char>, Seq<char>)) -> bool {
    captured_model(Err(e)) == Err::<Seq<char>, _>(m)
}

/// `-C <path> add <files...>`.
pub open spec fn add_args(path: Seq<char>, files: Seq<Seq<char>>) -> Seq<Seq<char>> {
    seq!["-C"@, path, "add"@] + files
}

/// `-C <path> commit -m <message>`.
pub open spec fn commit_args(path: Seq<char>, message: Seq<char>) -> Seq<Seq<char>> {
    seq!["-C"@, path, "commit"@, "-m"@, message]
}

/// The arguments of `git -C <path> add <files...>`.
fn add_args_vec(path: &str, files: &[String]) -> (args: Vec<String>)
    ensures
        strs(args@) == add_args(path@, strs(files@)),
{
    let mut args = vec!["-C".to_owned(), path.to_owned(), "add".to_owned()];
    let ghost head = strs(args@);
    let mut i: usize = 0;
    while i < files.len()
        invariant
            i <= files.len(),
            head == seq!["-C"@, path@, "add"@],
            strs(args@) == head + strs(files@).take(i as int),
        decreases files.len() - i,
    {
        let f = files[i].clone();
        assert(f@ == files@[i as int]@);
        let ghost prev = args@;
        args.push(f);
        assert(strs(args@) =~= strs(prev).push(f@));
        assert(strs(files@).take(i + 1) =~= strs(files@).take(i as int).push(f@));
        i = i + 1;
        assert(strs(args@) =~= head + strs(files@).take(i as int));
    }
    assert(strs(files@).take(files.len() as int) =~= strs(files@));
    args
}

/// The arguments of `git -C <path> commit -m <message>`.
fn commit_args_vec(path: &str, message: &str) -> (args: Vec<String>)
    ensures
        strs(args@) == commit_args(path@, message@),
{
    let args = vec![
        "-C".to_owned(),
        path.to_owned(),
        "commit".to_owned(),
        "-m".to_owned(),
        message.to_owned(),
    ];
    assert(strs(args@) =~= commit_args(path@, message@));
    args
}

/// Where committing has got to.
pub enum Commit {
    /// Waiting for `git add`.
    Add { path: String, files: Vec<String>, message: String },
    /// Waiting for `git commit`.
    Record { path: String, message: String },
}

/// `git -C <worktree> add <files> && git -C <worktree> commit -m <msg>`:
/// the first step asks for the `add`.
pub fn commit(path: &str, files: Vec<String>, message: &str) -> (r: (Commit, Request))
    ensures
        r.0 matches Commit::Add { path: p, files: f, message: m } && p@ == path@ && strs(f@)
            == strs(files@) && m@ == message@,
        is_git(r.1, add_args(path@, strs(files@)), false),
{
    let args = add_args_vec(path, files.as_slice());
    (
        Commit::Add { path: path.to_owned(), files, message: message.to_owned() },
        Request::Git { args, inherit: false },
    )
}

/// One step of committing.
pub open spec fn commit_next(stage: Commit, reply: Reply, r: Step<Commit, Result<(), IssueError>>) -> bool {
    match stage {
        Commit::Add { path, files, message } => match capture_spec(
            add_args(path@, strs(files@)),
            git_out(reply),
        ) {
            Ok(_) => r matches Step::Next(Commit::Record { path: p, message: m }, req)
                && p@ == path@ && m@ == message@ && is_git(
                req,
                commit_args(path@, message@),
                false,
            ),
            Err(m) => r matches Step::Done(Err(e)) && is_capture_error(e, m),
        },
        Commit::Record { path, message } => match capture_spec(
            commit_args(path@, message@),
            git_out(reply),
        ) {
            Ok(_) => r matches Step::Done(Ok(_)),
            Err(m) => r matches Step::Done(Err(e)) && is_capture_error(e, m),
        },
    }
}

impl Commit {
    /// The next step of committing: a failed `add` or `commit` ends it with
    /// git's error; a successful `add` asks for the `commit`.
    pub fn step(self, reply: Reply) -> (r: Step<Commit, Result<(), IssueError>>)
        requires
            reply is Git,
        ensures
            commit_next(self, reply, r),
    {
        let out = match reply {
            Reply::Git { out } => out,
            _ => {
                assert(false);
                Err(String::new())
            },
        };
        match self {
            Commit::Add { path, files, message } => {
                let args = add_args_vec(path.as_str(), files.as_slice());
                match capture(args.as_slice(), out) {
                    Ok(_) => {
                        let args = commit_args_vec(path.as_str(), message.as_str());
                        Step::Next(Commit::Record { path, message }, Request::Git { args, inherit: false })
                    },
                    Err(e) => Step::Done(Err(e)),
                }
            },
            Commit::Record { path, message } => {
                let args = commit_args_vec(path.as_str(), message.as_str());
                match capture(args.as_slice(), out) {
                    Ok(_) => Step::Done(Ok(())),
                    Err(e) => Step::Done(Err(e)),
                }
            },
        }
    }
}

// ---------------------------------------------------------------------------
// The editor
// ---------------------------------------------------------------------------

/// `var GIT_EDITOR`.
pub open spec fn editor_var_args() -> Seq<Seq<char>> {
    seq!["var"@, "GIT_EDITOR"@]
}

/// The shell script that runs `editor` on the file passed as `$1`.
pub open spec fn editor_script(editor: Seq<char>) -> Seq<char> {
    editor + " \"$1\""@
}

/// Where opening the editor has got to.
pub enum Editor {
    /// Waiting for git to name the editor.
    Var { file: String },
    /// Waiting for the editor to exit.
    Run { editor: String },
}

/// The arguments of `git var GIT_EDITOR`.
fn editor_var_args_vec() -> (args: Vec<String>)
    ensures
        strs(args@) == editor_var_args(),
{
    let args = vec!["var".to_owned(), "GIT_EDITOR".to_owned()];
    assert(strs(args@) =~= editor_var_args());
    args
}

/// Launch the user's git editor on `file` (the editor git itself uses for
/// commit messages): the first step asks git which editor that is.
pub fn open_editor(file: &str) -> (r: (Editor, Request))
    ensures
        r.0 matches Editor::Var { file: f } && f@ == file@,
        is_git(r.1, editor_var_args(), false),
{
    (Editor::Var { file: file.to_owned() }, Request::Git { args: editor_var_args_vec(), inherit: false })
}

/// One step of opening the editor.
pub open spec fn editor_next(stage: Editor, reply: Reply, r: Step<Editor, Result<(), IssueError>>) -> bool {
    match stage {
        Editor::Var { file } => match capture_spec(editor_var_args(), git_out(reply)) {
            Ok(ed) => r matches Step::Next(Editor::Run { editor: e }, Request::Editor { script, file: f })
                && e@ == ed && script@ == editor_script(ed) && f@ == file@,
            Err(m) => r matches Step::Done(Err(e)) && is_capture_error(e, m),
        },
        Editor::Run { editor } => match reply->Editor_status {
            Err(cause) => r matches Step::Done(Err(IssueError::EditorLaunch { editor: e, cause: c }))
                && e@ == editor@ && c@ == cause@,
            Ok(ok) => if ok {
                r matches Step::Done(Ok(_))
            } else {
                r matches Step::Done(Err(IssueError::EditorFailed))
            },
        },
    }
}

impl Editor {
    /// Whether `reply` answers what this state waits for.
    pub open spec fn accepts(self, reply: Reply) -> bool {
        match self {
            Editor::Var { .. } => reply is Git,
            Editor::Run { .. } => reply is Editor,
        }
    }

    /// The next step: once git names the editor, run it through `sh`; a
    /// failure to start it, or a failing exit, ends with an error.
    pub fn step(self, reply: Reply) -> (r: Step<Editor, Result<(), IssueError>>)
        requires
            self.accepts(reply),
        ensures
            editor_next(self, reply, r),
    {
        match self {
            Editor::Var { file } => {
                let out = match reply {
                    Reply::Git { out } => out,
                    _ => {
                        assert(false);
                        Err(String::new())
                    },
                };
                let args = editor_var_args_vec();
                match capture(args.as_slice(), out) {
                    Ok(editor) => {
                        let mut script = editor.clone();
                        push_str(&mut script, " \"$1\"");
                        Step::Next(Editor::Run { editor }, Request::Editor { script, file })
                    },
                    Err(e) => Step::Done(Err(e)),
                }
            },
            Editor::Run { editor } => {
                let status = match reply {
                    Reply::Editor { status } => status,
                    _ => {
                        assert(false);
                        Ok(false)
                    },
                };
                match status {
                    Err(cause) => Step::Done(Err(IssueError::EditorLaunch { editor, cause })),
                    Ok(ok) => if ok {
                        Step::Done(Ok(()))
                    } else {
                        Step::Done(Err(IssueError::EditorFailed))
                    },
                }
            },
        }
    }
}

// ---------------------------------------------------------------------------
// Syncing
// ---------------------------------------------------------------------------

/// `-C <path> fetch <remote> <branch>`.
pub open spec fn fetch_args(path: Seq<char>, remote: Seq<char>, branch: Seq<char>) -> Seq<Seq<char>> {
    seq!["-C"@, path, "fetch"@, remote, branch]
}

/// `-C <path> merge --no-edit FETCH_HEAD`.
pub open spec fn merge_args(path: Seq<char>) -> Seq<Seq<char>> {
    seq!["-C"@, path, "merge"@, "--no-edit"@, "FETCH_HEAD"@]
}

/// `-C <path> push -u <remote> <branch>`.
pub open spec fn push_args(path: Seq<char>, remote: Seq<char>, branch: Seq<char>) -> Seq<Seq<char>> {
    seq!["-C"@, path, "push"@, "-u"@, remote, branch]
}

/// What a successful sync prints.
pub open spec fn synced_message(remote: Seq<char>, branch: Seq<char>) -> Seq<char> {
    "Synced with "@ + remote + "/"@ + branch
}

/// Where syncing has got to.
pub enum Syncing {
    /// Waiting for the fetch.
    Fetch { path: String, remote: String, branch: String },
    /// Waiting for the merge of what was fetched.
    Merge { path: String, remote: String, branch: String },
    /// Waiting for the push.
    Push { path: String, remote: String, branch: String },
    /// Waiting for the report to be printed.
    Report,
}

/// The arguments of a fetch of the issues branch inside the worktree.
fn fetch_args_vec(path: &str, remote: &str, branch: &str) -> (args: Vec<String>)
    ensures
        strs(args@) == fetch_args(path@, remote@, branch@),
{
    let args = vec!["-C".to_owned(), path.to_owned(), "fetch".to_owned(), remote.to_owned(), branch.to_owned()];
    assert(strs(args@) =~= fetch_args(path@, remote@, branch@));
    args
}

/// The arguments of the merge of `FETCH_HEAD`.
fn merge_args_vec(path: &str) -> (args: Vec<String>)
    ensures
        strs(args@) == merge_args(path@),
{
    let args = vec!["-C".to_owned(), path.to_owned(), "merge".to_owned(), "--no-edit".to_owned(), "FETCH_HEAD".to_owned()];
    assert(strs(args@) =~= merge_args(path@));
    args
}

/// The arguments of the push of the issues branch.
fn push_args_vec(path: &str, remote: &str, branch: &str) -> (args: Vec<String>)
    ensures
        strs(args@) == push_args(path@, remote@, branch@),
{
    let args = vec!["-C".to_owned(), path.to_owned(), "push".to_owned(), "-u".to_owned(), remote.to_owned(), branch.to_owned()];
    assert(strs(args@) =~= push_args(path@, remote@, branch@));
    args
}

/// fetch + merge + push the issues branch: without a remote there is
/// nothing to sync; otherwise the first step asks for the fetch.
pub fn sync_worktree(s: &Settings) -> (r: Step<Syncing, Result<(), IssueError>>)
    ensures
        match s.remote {
            None => r matches Step::Done(Err(IssueError::NoRemote)),
            Some(remote) => r matches Step::Next(Syncing::Fetch { path, remote: rm, branch }, req)
                && path@ == s.path@ && rm@ == remote@ && branch@ == s.branch@ && is_git(
                req,
                fetch_args(s.path@, remote@, s.branch@),
                false,
            ),
        },
{
    match &s.remote {
        None => Step::Done(Err(IssueError::NoRemote)),
        Some(remote) => {
            let args = fetch_args_vec(s.path.as_str(), remote.as_str(), s.branch.as_str());
            Step::Next(
                Syncing::Fetch { path: s.path.clone(), remote: remote.clone(), branch: s.branch.clone() },
                Request::Git { args, inherit: false },
            )
        },
    }
}

/// A git run that could not start ends with this error.
pub open spec fn is_spawn_error(e: IssueError, args: Seq<Seq<char>>, cause: Seq<char>) -> bool {
    e matches IssueError::Spawn { command, cause: c } && command@ == command_line(args) && c@ == cause
}

/// One step of syncing.
pub open spec fn syncing_next(stage: Syncing, reply: Reply, r: Step<Syncing, Result<(), IssueError>>) -> bool {
    match stage {
        Syncing::Fetch { path, remote, branch } => if git_out(reply) matches Ok((true, _, _)) {
            r matches Step::Next(Syncing::Merge { path: p, remote: rm, branch: b }, req)
                && p@ == path@ && rm@ == remote@ && b@ == branch@
                && is_git(req, merge_args(path@), true)
        } else {
            r matches Step::Next(Syncing::Push { path: p, remote: rm, branch: b }, req)
                && p@ == path@ && rm@ == remote@ && b@ == branch@
                && is_git(req, push_args(path@, remote@, branch@), true)
        },
        Syncing::Merge { path, remote, branch } => match git_out(reply) {
            Err(cause) => r matches Step::Done(Err(e)) && is_spawn_error(e, merge_args(path@), cause),
            Ok((ok, _, _)) => if ok {
                r matches Step::Next(Syncing::Push { path: p, remote: rm, branch: b }, req)
                    && p@ == path@ && rm@ == remote@ && b@ == branch@
                    && is_git(req, push_args(path@, remote@, branch@), true)
            } else {
                r matches Step::Done(Err(IssueError::MergeConflict))
            },
        },
        Syncing::Push { path, remote, branch } => match git_out(reply) {
            Err(cause) => r matches Step::Done(Err(e)) && is_spawn_error(
                e,
                push_args(path@, remote@, branch@),
                cause,
            ),
            Ok((ok, _, _)) => if ok {
                r matches Step::Next(Syncing::Report, req) && is_print(
                    req,
                    synced_message(remote@, branch@),
                    true,
                )
            } else {
                r matches Step::Done(Err(IssueError::PushFailed))
            },
        },
        Syncing::Report => r matches Step::Done(Ok(_)),
    }
}

impl Syncing {
    /// Whether `reply` answers what this state waits for.
    pub open spec fn accepts(self, reply: Reply) -> bool {
        match self {
            Syncing::Report => reply is Done,
            _ => reply is Git,
        }
    }

    /// The next step of syncing. A failed fetch is fine (the branch may not
    /// be on the remote yet) and skips the merge; a failed merge or push ends
    /// with an error.
    pub fn step(self, reply: Reply) -> (r: Step<Syncing, Result<(), IssueError>>)
        requires
            self.accepts(reply),
        ensures
            syncing_next(self, reply, r),
    {
        if let Syncing::Report = self {
            return Step::Done(Ok(()));
        }
        let out = match reply {
            Reply::Git { out } => out,
            _ => {
                assert(false);
                Err(String::new())
            },
        };
        match self {
            Syncing::Fetch { path, remote, branch } => {
                let fetched = match &out {
                    Ok(o) => o.success,
                    Err(_) => false,
                };
                if fetched {
                    let args = merge_args_vec(path.as_str());
                    Step::Next(Syncing::Merge { path, remote, branch }, Request::Git { args, inherit: true })
                } else {
                    let args = push_args_vec(path.as_str(), remote.as_str(), branch.as_str());
                    Step::Next(Syncing::Push { path, remote, branch }, Request::Git { args, inherit: true })
                }
            },
            Syncing::Merge { path, remote, branch } => match out {
                Err(cause) => {
                    let args = merge_args_vec(path.as_str());
                    let command = join_args(args.as_slice());
                    Step::Done(Err(IssueError::Spawn { command, cause }))
                },
                Ok(o) => if o.success {
                    let args = push_args_vec(path.as_str(), remote.as_str(), branch.as_str());
                    Step::Next(Syncing::Push { path, remote, branch }, Request::Git { args, inherit: true })
                } else {
                    Step::Done(Err(IssueError::MergeConflict))
                },
            },
            Syncing::Push { path, remote, branch } => match out {
                Err(cause) => {
                    let args = push_args_vec(path.as_str(), remote.as_str(), branch.as_str());
                    let command = join_args(args.as_slice());
                    Step::Done(Err(IssueError::Spawn { command, cause }))
                },
                Ok(o) => if o.success {
                    let mut text = "Synced with ".to_owned();
                    push_str(&mut text, remote.as_str());
                    push_str(&mut text, "/");
                    push_str(&mut text, branch.as_str());
                    Step::Next(Syncing::Report, Request::Print { text, newline: true })
                } else {
                    Step::Done(Err(IssueError::PushFailed))
                },
            },
            Syncing::Report => Step::Done(Ok(())),
        }
    }
}

// ---------------------------------------------------------------------------
// Issue files
// ---------------------------------------------------------------------------

/// An issue ID as given, without a trailing `.md`.
pub open spec fn issue_id_spec(id: Seq<char>) -> Seq<char> {
    if id.len() >= 3 && id.skip(id.len() - 3) == ".md"@ {
        id.take(id.len() - 3)
    } else {
        id
    }
}

/// The path of an issue's file: `<worktree>/issues/<id>.md`.
pub open spec fn issue_path_spec(worktree: Seq<char>, id: Seq<char>) -> Seq<char> {
    path_join(path_join(worktree, "issues"@), issue_id_spec(id) + ".md"@)
}

/// The path of an issue's file relative to the worktree.
pub open spec fn issue_rel_spec(id: Seq<char>) -> Seq<char> {
    "issues/"@ + issue_id_spec(id) + ".md"@
}

/// An issue ID without a trailing `.md`.
pub fn issue_id(id: &str) -> (r: String)
    ensures
        r@ == issue_id_spec(id@),
{
    let cs = crate::text::chars_of(id);
    let n = cs.len();
    proof {
        reveal_strlit(".md");
    }
    if n >= 3 && cs[n - 3] == '.' && cs[n - 2] == 'm' && cs[n - 1] == 'd' {
        assert(cs@.skip(n - 3) =~= ".md"@);
        let r = crate::text::slice_vec(cs.as_slice(), 0, n - 3);
        crate::text::string_of(r.as_slice())
    } else {
        assert(n >= 3 ==> cs@.skip(n - 3) != ".md"@) by {
            if n >= 3 && cs@.skip(n - 3) == ".md"@ {
                assert(cs@.skip(n - 3)[0] == cs@[n - 3]);
                assert(cs@.skip(n - 3)[1] == cs@[n - 2]);
                assert(cs@.skip(n - 3)[2] == cs@[n - 1]);
            }
        }
        id.to_owned()
    }
}

/// The file of an issue inside the worktree.
pub fn issue_path(worktree: &str, id: &str) -> (r: String)
    ensures
        r@ == issue_path_spec(worktree@, id@),
{
    let dir = join_path(worktree, "issues");
    let mut name = issue_id(id);
    push_str(&mut name, ".md");
    join_path(dir.as_str(), name.as_str())
}

/// The file of an issue relative to the worktree, as it is committed.
pub fn issue_rel(id: &str) -> (r: String)
    ensures
        r@ == issue_rel_spec(id@),
{
    let mut rel = "issues/".to_owned();
    let base = issue_id(id);
    push_str(&mut rel, base.as_str());
    push_str(&mut rel, ".md");
    rel
}

// ---------------------------------------------------------------------------
// Sessions: one run of a subcommand
// ---------------------------------------------------------------------------

/// A subcommand and its arguments.
pub enum Cmd {
    /// Create an issue titled by the words of `title`.
    New { title: Vec<String>, sync: bool },
    /// List issues, optionally only those with a status or a label.
    List { want_status: Option<String>, want_label: Option<String> },
    /// Print an issue.
    Show { id: String },
    /// Edit an issue.
    Edit { id: String, sync: bool },
    /// Set an issue's status.
    SetStatus { id: String, status: String, sync: bool },
    /// fetch + merge + push the issues branch.
    Sync,
    /// Print the worktree path.
    Path,
    /// Show the worktree's git status.
    Status,
    /// Print the issue IDs, for shell completion.
    CompleteIds,
}

/// Where a subcommand has got to.
pub enum Session {
    /// Resolving the settings.
    Resolving { cmd: Cmd, stage: Resolve },
    /// Checking that the worktree exists.
    Worktree { cmd: Cmd, settings: Settings },
    /// Checking that the issue's file exists.
    Issue { cmd: Cmd, settings: Settings, file: String },
    /// `show`: reading the file.
    ShowRead { file: String },
    /// `status`: git status is running on the terminal.
    StatusRun { path: String },
    /// `new`: writing the new issue's file.
    NewWrite { settings: Settings, id: String, rel: String, file: String, sync: bool },
    /// `new`: the editor is open on the new issue.
    NewEditor { settings: Settings, id: String, rel: String, sync: bool, editor: Editor },
    /// `edit`: the editor is open on the issue.
    EditEditor { settings: Settings, id: String, file: String, sync: bool, editor: Editor },
    /// `edit` or `close`/`reopen`: reading the issue; `status` is the status
    /// to set, if any.
    Reading { settings: Settings, id: String, file: String, sync: bool, status: Option<String> },
    /// `edit` or `close`/`reopen`: writing the updated issue.
    Writing { settings: Settings, id: String, file: String, sync: bool, status: Option<String> },
    /// Committing the change; `report` is printed once it is committed.
    Committing { settings: Settings, sync: bool, report: String, commit: Commit },
    /// The report is being printed; a sync may follow.
    Reporting { settings: Settings, sync: bool },
    /// Syncing the issues branch.
    SyncRun { sync_stage: Syncing },
    /// `list`: listing the issues directory.
    ListDir { want_status: Option<String>, want_label: Option<String>, dir: String },
    /// `list`: reading the issue file `name`; `next` is the entry after it.
    ListRead {
        want_status: Option<String>,
        want_label: Option<String>,
        dir: String,
        names: Vec<String>,
        next: usize,
        rows: Vec<crate::listing::Row>,
    },
    /// `complete-ids`: listing the issues directory.
    IdsDir { dir: String },
    /// `complete-ids`: reading the issue file before `next`; `ids` are the
    /// IDs found so far.
    IdsRead { dir: String, names: Vec<String>, next: usize, ids: Vec<String> },
    /// `list`: printing the rows; `next` is the line after the one printing.
    ListPrint { lines: Vec<String>, next: usize },
    /// `init`: waiting for git's version.
    InitVersion { new_branch: Option<String>, new_path: Option<String>, skill: Option<Skill> },
    /// `init`: waiting for the repository root.
    InitRoot { new_branch: Option<String>, new_path: Option<String>, skill: Option<Skill> },
    /// `init`: checking whether the skill file is already there.
    InitSkillCheck { new_branch: Option<String>, new_path: Option<String>, dir: String, file: String, skill: Skill },
    /// `init`: creating the skill's directory.
    InitSkillDir { new_branch: Option<String>, new_path: Option<String>, dir: String, file: String, skill: Skill },
    /// `init`: writing the skill file.
    InitSkillWrite { new_branch: Option<String>, new_path: Option<String>, file: String, report: String },
    /// `init`: reporting the installed skill.
    InitSkillReport { new_branch: Option<String>, new_path: Option<String> },
    /// `init`: storing the branch name in the config.
    InitSetBranch { value: String, new_path: Option<String> },
    /// `init`: waiting for the current directory, to make `rel` absolute.
    InitCwd { rel: String },
    /// `init`: storing the worktree path in the config.
    InitSetPath { value: String },
    /// `init`: resolving the settings.
    InitResolving { init_stage: Resolve },
    /// `init`: checking whether the worktree is already set up.
    InitCheck { settings: Settings },
    /// `init`: checking whether something else is in the way.
    InitPathExists { settings: Settings },
    /// `init`: fetching the issues branch (its outcome does not matter).
    InitFetch { settings: Settings },
    /// `init`: attaching a worktree to an existing branch.
    InitAttach { settings: Settings },
    /// `init`: creating the branch as a new orphan; `attach_err` is why
    /// attaching failed.
    InitOrphan { settings: Settings, attach_err: String },
    /// `init`: creating `issues/` in the new worktree.
    InitMkdir { settings: Settings },
    /// `init`: writing `issues/.gitkeep`.
    InitSeed { settings: Settings },
    /// `init`: committing the new worktree's first file.
    InitCommit { settings: Settings, init_commit: Commit },
    /// The last line is being printed.
    Printing,
    /// The subcommand is over.
    Finished,
}

/// A step that ends the subcommand with `e`.
pub open spec fn ends_with_error(r: (Session, Request), e: IssueError) -> bool {
    r.0 is Finished && r.1 == Request::Finish { result: Err(e) }
}

/// A step that ends the subcommand with some error satisfying `is_capture_error`.
pub open spec fn ends_with_capture_error(r: (Session, Request), m: (bool, Seq<char>, Seq<char>)) -> bool {
    &&& r.0 is Finished
    &&& r.1 matches Request::Finish { result: Err(e) } && is_capture_error(e, m)
}

/// A step that ends the subcommand successfully.
pub open spec fn ends_ok(r: (Session, Request)) -> bool {
    r.0 is Finished && is_finish_ok(r.1)
}

/// The `.git` entry whose presence marks a linked worktree.
pub open spec fn dot_git(path: Seq<char>) -> Seq<char> {
    path_join(path, ".git"@)
}

/// The first step of every subcommand but `init`: resolving the settings.
fn start(cmd: Cmd) -> (r: (Session, Request))
    ensures
        r.0 matches Session::Resolving { cmd: c, stage: Resolve::Root } && c == cmd,
        is_git(r.1, crate::config::root_args(), false),
        keeps_protocol(r),
{
    let (stage, req) = resolve();
    (Session::Resolving { cmd, stage }, req)
}

/// Create a new issue and open the editor on it, optionally syncing after.
pub fn new(title: &[String], sync: bool) -> (r: (Session, Request))
    ensures
        r.0 matches Session::Resolving { cmd: Cmd::New { title: t, sync: s }, stage: Resolve::Root }
            && strs(t@) == strs(title@) && s == sync,
        is_git(r.1, crate::config::root_args(), false),
        keeps_protocol(r),
{
    let mut t: Vec<String> = Vec::new();
    let mut i: usize = 0;
    while i < title.len()
        invariant
            i <= title.len(),
            strs(t@) == strs(title@).take(i as int),
        decreases title.len() - i,
    {
        let w = title[i].clone();
        assert(w@ == title@[i as int]@);
        let ghost prev = t@;
        t.push(w);
        assert(strs(t@) =~= strs(prev).push(w@));
        assert(strs(title@).take(i + 1) =~= strs(title@).take(i as int).push(w@));
        i = i + 1;
    }
    assert(strs(title@).take(title.len() as int) =~= strs(title@));
    start(Cmd::New { title: t, sync })
}

/// List issues, optionally filtered by status and label.
pub fn list(status: Option<String>, label: Option<String>) -> (r: (Session, Request))
    ensures
        r.0 matches Session::Resolving { cmd: Cmd::List { want_status: s, want_label: l }, stage: Resolve::Root }
            && s == status && l == label,
        is_git(r.1, crate::config::root_args(), false),
        keeps_protocol(r),
{
    start(Cmd::List { want_status: status, want_label: label })
}

/// Print an issue.
pub fn show(id: &str) -> (r: (Session, Request))
    ensures
        r.0 matches Session::Resolving { cmd: Cmd::Show { id: i }, stage: Resolve::Root } && i@ == id@,
        is_git(r.1, crate::config::root_args(), false),
        keeps_protocol(r),
{
    start(Cmd::Show { id: id.to_owned() })
}

/// Edit an issue in the editor, optionally syncing after.
pub fn edit(id: &str, sync: bool) -> (r: (Session, Request))
    ensures
        r.0 matches Session::Resolving { cmd: Cmd::Edit { id: i, sync: s }, stage: Resolve::Root }
            && i@ == id@ && s == sync,
        is_git(r.1, crate::config::root_args(), false),
        keeps_protocol(r),
{
    start(Cmd::Edit { id: id.to_owned(), sync })
}

/// Mark an issue with a status (`close` and `reopen`), optionally syncing
/// after.
pub fn set_status(id: &str, status: &str, sync: bool) -> (r: (Session, Request))
    ensures
        r.0 matches Session::Resolving { cmd: Cmd::SetStatus { id: i, status: st, sync: s }, stage: Resolve::Root }
            && i@ == id@ && st@ == status@ && s == sync,
        is_git(r.1, crate::config::root_args(), false),
        keeps_protocol(r),
{
    start(Cmd::SetStatus { id: id.to_owned(), status: status.to_owned(), sync })
}

/// fetch + merge + push the issues branch.
pub fn sync() -> (r: (Session, Request))
    ensures
        r.0 matches Session::Resolving { cmd: Cmd::Sync, stage: Resolve::Root },
        is_git(r.1, crate::config::root_args(), false),
        keeps_protocol(r),
{
    start(Cmd::Sync)
}

/// Print the issues worktree path.
pub fn path() -> (r: (Session, Request))
    ensures
        r.0 matches Session::Resolving { cmd: Cmd::Path, stage: Resolve::Root },
        is_git(r.1, crate::config::root_args(), false),
        keeps_protocol(r),
{
    start(Cmd::Path)
}

/// Show ahead/behind of the issues branch (`git status -sb` in the worktree).
pub fn status() -> (r: (Session, Request))
    ensures
        r.0 matches Session::Resolving { cmd: Cmd::Status, stage: Resolve::Root },
        is_git(r.1, crate::config::root_args(), false),
        keeps_protocol(r),
{
    start(Cmd::Status)
}

/// Print the IDs of the issues, sorted, one per line, for shell completion.
/// It never fails: where the settings, the worktree or the issues directory
/// cannot be had it prints nothing, and unreadable issue files are skipped.
pub fn complete_ids() -> (r: (Session, Request))
    ensures
        r.0 matches Session::Resolving { cmd: Cmd::CompleteIds, stage: Resolve::Root },
        is_git(r.1, crate::config::root_args(), false),
        keeps_protocol(r),
{
    start(Cmd::CompleteIds)
}

/// Whether the issues worktree exists: a linked worktree has a `.git` entry.
fn is_initialized(s: &Settings) -> (r: Request)
    ensures
        is_exists(r, dot_git(s.path@)),
{
    Request::Exists { path: join_path(s.path.as_str(), ".git") }
}

/// After resolving: `path` prints the path; everything else first checks
/// that the worktree exists.
pub open spec fn after_resolve_next(cmd: Cmd, s: Settings, r: (Session, Request)) -> bool {
    if cmd is Path {
        r.0 is Printing && is_print(r.1, s.path@, true)
    } else {
        r.0 == Session::Worktree { cmd, settings: s } && is_exists(r.1, dot_git(s.path@))
    }
}

fn after_resolve(cmd: Cmd, s: Settings) -> (r: (Session, Request))
    ensures
        after_resolve_next(cmd, s, r),
{
    if let Cmd::Path = cmd {
        let text = s.path.clone();
        return (Session::Printing, Request::Print { text, newline: true });
    }
    let check = is_initialized(&s);
    (Session::Worktree { cmd, settings: s }, check)
}

/// Resolving: pass the reply on; an error ends the subcommand.
pub open spec fn resolving_next(
    cmd: Cmd,
    stage: Resolve,
    reply: Reply,
    r: (Session, Request),
) -> bool {
    exists|st: Step<Resolve, Result<Settings, IssueError>>|
        #[trigger] crate::config::resolve_next(stage, reply, st) && match st {
            Step::Next(s2, req) => r == (Session::Resolving { cmd, stage: s2 }, req),
            Step::Done(Err(e)) => if cmd is CompleteIds {
                ends_ok(r)
            } else {
                ends_with_error(r, e)
            },
            Step::Done(Ok(s)) => after_resolve_next(cmd, s, r),
        }
}

fn on_resolving(cmd: Cmd, stage: Resolve, reply: Reply) -> (r: (Session, Request))
    requires
        reply is Git,
    ensures
        resolving_next(cmd, stage, reply, r),
{
    let ghost g_stage = stage;
    let st = stage.step(reply);
    assert(crate::config::resolve_next(g_stage, reply, st));
    match st {
        Step::Next(s2, req) => (Session::Resolving { cmd, stage: s2 }, req),
        Step::Done(Err(e)) => if let Cmd::CompleteIds = cmd {
            (Session::Finished, Request::Finish { result: Ok(()) })
        } else {
            (Session::Finished, Request::Finish { result: Err(e) })
        },
        Step::Done(Ok(s)) => after_resolve(cmd, s),
    }
}

/// `-C <path> status -sb`.
pub open spec fn status_args(path: Seq<char>) -> Seq<Seq<char>> {
    seq!["-C"@, path, "status"@, "-sb"@]
}

/// The arguments of `git -C <path> status -sb`.
fn status_args_vec(path: &str) -> (args: Vec<String>)
    ensures
        strs(args@) == status_args(path@),
{
    let args = vec!["-C".to_owned(), path.to_owned(), "status".to_owned(), "-sb".to_owned()];
    assert(strs(args@) =~= status_args(path@));
    args
}

/// Starting a sync: without a remote the subcommand fails; otherwise the
/// fetch is asked for.
pub open spec fn sync_start_next(s: Settings, r: (Session, Request)) -> bool {
    match s.remote {
        None => ends_with_error(r, IssueError::NoRemote),
        Some(remote) => r.0 matches Session::SyncRun {
            sync_stage: Syncing::Fetch { path, remote: rm, branch },
        } && path@ == s.path@ && rm@ == remote@ && branch@ == s.branch@ && is_git(
            r.1,
            fetch_args(s.path@, remote@, s.branch@),
            false,
        ),
    }
}

fn start_sync(s: Settings) -> (r: (Session, Request))
    ensures
        sync_start_next(s, r),
{
    match sync_worktree(&s) {
        Step::Next(st, req) => (Session::SyncRun { sync_stage: st }, req),
        Step::Done(res) => (Session::Finished, Request::Finish { result: res }),
    }
}

/// The fields of a new issue: its ID, title, status `open`, no labels, and
/// the creation time as both `created` and `updated`.
pub open spec fn new_fields(id: Seq<char>, title: Seq<char>, now: Seq<char>) -> crate::frontmatter::FieldsModel {
    seq![
        ("id"@, id),
        ("title"@, title),
        ("status"@, "open"@),
        ("labels"@, Seq::<char>::empty()),
        ("created"@, now),
        ("updated"@, now),
    ]
}

/// The title of a new issue: its words joined by spaces, trimmed.
pub open spec fn new_title(title: Vec<String>) -> Seq<char> {
    trim(command_line(strs(title@)))
}

/// `new` once the worktree is known to exist: a blank title is refused;
/// otherwise the issue gets a fresh ID (its slug and a random suffix) and
/// the current time, and its file is written.
pub open spec fn new_start_next(s: Settings, title: Vec<String>, sync: bool, r: (Session, Request)) -> bool {
    let t = new_title(title);
    if t.len() == 0 {
        ends_with_error(r, IssueError::TitleRequired)
    } else {
        exists|suffix: Seq<char>, now: Seq<char>|
            #![trigger crate::util::is_suffix(suffix), crate::util::is_utc_timestamp(now)]
            crate::util::is_suffix(suffix) && crate::util::is_utc_timestamp(now) && {
                let id = crate::util::id_spec(t, suffix);
                let rel = "issues/"@ + id + ".md"@;
                let file = path_join(s.path@, rel);
                &&& r.0 matches Session::NewWrite { settings: s2, id: i, rel: rl, file: f, sync: sy }
                    && s2 == s && i@ == id && rl@ == rel && f@ == file && sy == sync
                &&& crate::request::is_write(
                    r.1,
                    file,
                    crate::frontmatter::render_spec(new_fields(id, t, now), Seq::<char>::empty()),
                )
            }
    }
}

fn start_new(s: Settings, title: Vec<String>, sync: bool) -> (r: (Session, Request))
    ensures
        new_start_next(s, title, sync, r),
{
    let joined = join_args(title.as_slice());
    let t = crate::git::trimmed(joined.as_str());
    if t.as_str().is_empty() {
        return (Session::Finished, Request::Finish { result: Err(IssueError::TitleRequired) });
    }
    assert(t@.len() > 0);
    let id = crate::util::make_id(t.as_str());
    let ghost suffix = choose|suffix: Seq<char>|
        crate::util::is_suffix(suffix) && id@ == crate::util::id_spec(t@, suffix);
    let now = crate::util::utc_now();
    let doc = Document {
        fields: vec![
            ("id".to_owned(), id.clone()),
            ("title".to_owned(), t.clone()),
            ("status".to_owned(), "open".to_owned()),
            ("labels".to_owned(), String::new()),
            ("created".to_owned(), now.clone()),
            ("updated".to_owned(), now),
        ],
        body: String::new(),
    };
    assert(doc@.0 =~= new_fields(id@, t@, now@));
    let contents = doc.render();
    let mut rel = "issues/".to_owned();
    push_str(&mut rel, id.as_str());
    push_str(&mut rel, ".md");
    let file = join_path(s.path.as_str(), rel.as_str());
    let r = (
        Session::NewWrite { settings: s, id, rel, file: file.clone(), sync },
        Request::WriteFile { path: file, contents },
    );
    assert(crate::util::id_spec(t@, suffix) == r.0->NewWrite_id@);
    r
}

/// Once the worktree is known to exist, each subcommand goes its own way.
pub open spec fn after_worktree_next(cmd: Cmd, s: Settings, r: (Session, Request)) -> bool {
    match cmd {
        Cmd::New { title, sync } => new_start_next(s, title, sync, r),
        Cmd::List { want_status, want_label } => r.0 matches Session::ListDir {
            want_status: ws,
            want_label: wl,
            dir,
        } && ws == want_status && wl == want_label && dir@ == path_join(s.path@, "issues"@)
            && crate::request::is_read_dir(r.1, path_join(s.path@, "issues"@)),
        Cmd::Show { id } => r.0 matches Session::Issue { cmd: c, settings: s2, file } && c == cmd
            && s2 == s && file@ == issue_path_spec(s.path@, id@) && is_exists(
            r.1,
            issue_path_spec(s.path@, id@),
        ),
        Cmd::Edit { id, sync } => r.0 matches Session::Issue { cmd: c, settings: s2, file } && c
            == cmd && s2 == s && file@ == issue_path_spec(s.path@, id@) && is_exists(
            r.1,
            issue_path_spec(s.path@, id@),
        ),
        Cmd::SetStatus { id, status, sync } => r.0 matches Session::Issue {
            cmd: c,
            settings: s2,
            file,
        } && c == cmd && s2 == s && file@ == issue_path_spec(s.path@, id@) && is_exists(
            r.1,
            issue_path_spec(s.path@, id@),
        ),
        Cmd::Sync => sync_start_next(s, r),
        Cmd::Status => r.0 matches Session::StatusRun { path } && path@ == s.path@ && is_git(
            r.1,
            status_args(s.path@),
            true,
        ),
        Cmd::Path => ends_ok(r),
        Cmd::CompleteIds => r.0 matches Session::IdsDir { dir } && dir@ == path_join(s.path@, "issues"@)
            && crate::request::is_read_dir(r.1, path_join(s.path@, "issues"@)),
    }
}

fn after_worktree(cmd: Cmd, s: Settings) -> (r: (Session, Request))
    ensures
        after_worktree_next(cmd, s, r),
{
    match cmd {
        Cmd::New { title, sync } => start_new(s, title, sync),
        Cmd::List { want_status, want_label } => {
            let dir = join_path(s.path.as_str(), "issues");
            let d2 = dir.clone();
            (Session::ListDir { want_status, want_label, dir }, Request::ReadDir { path: d2 })
        },
        Cmd::Show { id } => {
            let file = issue_path(s.path.as_str(), id.as_str());
            let f2 = file.clone();
            (Session::Issue { cmd: Cmd::Show { id }, settings: s, file }, Request::Exists { path: f2 })
        },
        Cmd::Edit { id, sync } => {
            let file = issue_path(s.path.as_str(), id.as_str());
            let f2 = file.clone();
            (Session::Issue { cmd: Cmd::Edit { id, sync }, settings: s, file }, Request::Exists { path: f2 })
        },
        Cmd::SetStatus { id, status, sync } => {
            let file = issue_path(s.path.as_str(), id.as_str());
            let f2 = file.clone();
            (
                Session::Issue { cmd: Cmd::SetStatus { id, status, sync }, settings: s, file },
                Request::Exists { path: f2 },
            )
        },
        Cmd::Sync => start_sync(s),
        Cmd::Status => {
            let args = status_args_vec(s.path.as_str());
            (Session::StatusRun { path: s.path }, Request::Git { args, inherit: true })
        },
        Cmd::Path => (Session::Finished, Request::Finish { result: Ok(()) }),
        Cmd::CompleteIds => {
            let dir = join_path(s.path.as_str(), "issues");
            let d2 = dir.clone();
            (Session::IdsDir { dir }, Request::ReadDir { path: d2 })
        },
    }
}

/// Checking the worktree: a missing one ends the subcommand.
pub open spec fn worktree_next(cmd: Cmd, s: Settings, found: bool, r: (Session, Request)) -> bool {
    if found {
        after_worktree_next(cmd, s, r)
    } else if cmd is CompleteIds {
        ends_ok(r)
    } else {
        ends_with_error(r, IssueError::WorktreeMissing { path: s.path })
    }
}

fn ensure_worktree(cmd: Cmd, s: Settings, found: bool) -> (r: (Session, Request))
    ensures
        worktree_next(cmd, s, found, r),
{
    if found {
        after_worktree(cmd, s)
    } else if let Cmd::CompleteIds = cmd {
        (Session::Finished, Request::Finish { result: Ok(()) })
    } else {
        (Session::Finished, Request::Finish { result: Err(IssueError::WorktreeMissing { path: s.path }) })
    }
}

/// The ID a subcommand names.
pub open spec fn cmd_id(cmd: Cmd) -> String {
    match cmd {
        Cmd::Show { id } => id,
        Cmd::Edit { id, .. } => id,
        Cmd::SetStatus { id, .. } => id,
        _ => arbitrary(),
    }
}

/// Checking the issue's file: a missing one ends the subcommand; `show`
/// reads it, `edit` opens the editor on it, `close`/`reopen` read it.
pub open spec fn issue_next(cmd: Cmd, s: Settings, file: String, found: bool, r: (Session, Request)) -> bool {
    if !found && (cmd is Show || cmd is Edit || cmd is SetStatus) {
        ends_with_error(r, IssueError::NoSuchIssue { id: cmd_id(cmd) })
    } else {
        match cmd {
            Cmd::Show { id } => r.0 == Session::ShowRead { file } && is_read(r.1, file@),
            Cmd::Edit { id, sync } => r.0 matches Session::EditEditor {
                settings: s2,
                id: i,
                file: f,
                sync: sy,
                editor: Editor::Var { file: ef },
            } && s2 == s && i == id && f == file && sy == sync && ef@ == file@ && is_git(
                r.1,
                editor_var_args(),
                false,
            ),
            Cmd::SetStatus { id, status, sync } => r.0 == Session::Reading {
                settings: s,
                id,
                file,
                sync,
                status: Some(status),
            } && is_read(r.1, file@),
            _ => ends_ok(r),
        }
    }
}

fn existing_issue(cmd: Cmd, s: Settings, file: String, found: bool) -> (r: (Session, Request))
    ensures
        issue_next(cmd, s, file, found, r),
{
    match cmd {
        Cmd::Show { id } => {
            if !found {
                return (Session::Finished, Request::Finish { result: Err(IssueError::NoSuchIssue { id }) });
            }
            let f2 = file.clone();
            (Session::ShowRead { file }, Request::ReadFile { path: f2 })
        },
        Cmd::Edit { id, sync } => {
            if !found {
                return (Session::Finished, Request::Finish { result: Err(IssueError::NoSuchIssue { id }) });
            }
            let (editor, req) = open_editor(file.as_str());
            (Session::EditEditor { settings: s, id, file, sync, editor }, req)
        },
        Cmd::SetStatus { id, status, sync } => {
            if !found {
                return (Session::Finished, Request::Finish { result: Err(IssueError::NoSuchIssue { id }) });
            }
            let f2 = file.clone();
            (
                Session::Reading { settings: s, id, file, sync, status: Some(status) },
                Request::ReadFile { path: f2 },
            )
        },
        _ => (Session::Finished, Request::Finish { result: Ok(()) }),
    }
}

/// `show`: the file's text is printed as it is.
pub open spec fn show_read_next(file: String, text: Result<String, String>, r: (Session, Request)) -> bool {
    match text {
        Err(cause) => ends_with_error(r, IssueError::CannotRead { path: file, cause }),
        Ok(raw) => r.0 is Printing && is_print(r.1, raw@, false),
    }
}

fn on_show_read(file: String, text: Result<String, String>) -> (r: (Session, Request))
    ensures
        show_read_next(file, text, r),
{
    match text {
        Err(cause) => (Session::Finished, Request::Finish { result: Err(IssueError::CannotRead { path: file, cause }) }),
        Ok(raw) => (Session::Printing, Request::Print { text: raw, newline: false }),
    }
}

/// `status`: only a failure to start git is an error.
pub open spec fn status_run_next(path: String, out: Result<GitOutput, String>, r: (Session, Request)) -> bool {
    match out {
        Err(cause) => {
            &&& r.0 is Finished
            &&& r.1 matches Request::Finish { result: Err(e) } && is_spawn_error(
                e,
                status_args(path@),
                cause@,
            )
        },
        Ok(_) => ends_ok(r),
    }
}

fn on_status_run(path: String, out: Result<GitOutput, String>) -> (r: (Session, Request))
    ensures
        status_run_next(path, out, r),
{
    match out {
        Err(cause) => {
            let args = status_args_vec(path.as_str());
            let command = join_args(args.as_slice());
            (Session::Finished, Request::Finish { result: Err(IssueError::Spawn { command, cause }) })
        },
        Ok(_) => (Session::Finished, Request::Finish { result: Ok(()) }),
    }
}

/// Starting a commit of one file; `report` is printed once it is committed.
pub open spec fn commit_start_next(
    s: Settings,
    sync: bool,
    report: Seq<char>,
    rel: Seq<char>,
    message: Seq<char>,
    r: (Session, Request),
) -> bool {
    &&& r.0 matches Session::Committing {
        settings: s2,
        sync: sy,
        report: rp,
        commit: Commit::Add { path, files, message: m },
    } && s2 == s && sy == sync && rp@ == report && path@ == s.path@ && strs(files@) == seq![rel]
        && m@ == message
    &&& is_git(r.1, add_args(s.path@, seq![rel]), false)
}

fn start_commit(s: Settings, sync: bool, report: String, rel: String, message: String) -> (r: (Session, Request))
    ensures
        commit_start_next(s, sync, report@, rel@, message@, r),
{
    let ghost rel_v = rel@;
    let files = vec![rel];
    assert(strs(files@) =~= seq![rel_v]);
    let (commit, req) = commit(s.path.as_str(), files, message.as_str());
    (Session::Committing { settings: s, sync, report, commit }, req)
}

/// `new`: once the file is written, the editor is opened on it.
pub open spec fn new_write_next(
    s: Settings,
    id: String,
    rel: String,
    file: String,
    sync: bool,
    result: Result<(), String>,
    r: (Session, Request),
) -> bool {
    match result {
        Err(cause) => ends_with_error(r, IssueError::CannotWrite { path: file, cause }),
        Ok(_) => r.0 matches Session::NewEditor {
            settings: s2,
            id: i,
            rel: rl,
            sync: sy,
            editor: Editor::Var { file: f },
        } && s2 == s && i == id && rl == rel && sy == sync && f@ == file@ && is_git(
            r.1,
            editor_var_args(),
            false,
        ),
    }
}

fn on_new_write(
    s: Settings,
    id: String,
    rel: String,
    file: String,
    sync: bool,
    result: Result<(), String>,
) -> (r: (Session, Request))
    ensures
        new_write_next(s, id, rel, file, sync, result, r),
{
    match result {
        Err(cause) => (Session::Finished, Request::Finish { result: Err(IssueError::CannotWrite { path: file, cause }) }),
        Ok(_) => {
            let (editor, req) = open_editor(file.as_str());
            (Session::NewEditor { settings: s, id, rel, sync, editor }, req)
        },
    }
}

/// `new`: once the editor closes, the file is committed and `Created <id>`
/// printed.
pub open spec fn new_editor_next(
    s: Settings,
    id: String,
    rel: String,
    sync: bool,
    editor: Editor,
    reply: Reply,
    r: (Session, Request),
) -> bool {
    exists|st: Step<Editor, Result<(), IssueError>>|
        #[trigger] editor_next(editor, reply, st) && match st {
            Step::Next(e2, req) => r == (Session::NewEditor { settings: s, id, rel, sync, editor: e2 }, req),
            Step::Done(Err(e)) => ends_with_error(r, e),
            Step::Done(Ok(_)) => commit_start_next(
                s,
                sync,
                "Created "@ + id@,
                rel@,
                "issues: add "@ + id@,
                r,
            ),
        }
}

fn on_new_editor(
    s: Settings,
    id: String,
    rel: String,
    sync: bool,
    editor: Editor,
    reply: Reply,
) -> (r: (Session, Request))
    requires
        editor.accepts(reply),
    ensures
        new_editor_next(s, id, rel, sync, editor, reply, r),
{
    let ghost g = editor;
    let st = editor.step(reply);
    assert(editor_next(g, reply, st));
    match st {
        Step::Next(e2, req) => (Session::NewEditor { settings: s, id, rel, sync, editor: e2 }, req),
        Step::Done(Err(e)) => (Session::Finished, Request::Finish { result: Err(e) }),
        Step::Done(Ok(_)) => {
            let mut report = "Created ".to_owned();
            push_str(&mut report, id.as_str());
            let mut message = "issues: add ".to_owned();
            push_str(&mut message, id.as_str());
            start_commit(s, sync, report, rel, message)
        },
    }
}

/// `edit`: once the editor closes, the file is read back.
pub open spec fn edit_editor_next(
    s: Settings,
    id: String,
    file: String,
    sync: bool,
    editor: Editor,
    reply: Reply,
    r: (Session, Request),
) -> bool {
    exists|st: Step<Editor, Result<(), IssueError>>|
        #[trigger] editor_next(editor, reply, st) && match st {
            Step::Next(e2, req) => r == (Session::EditEditor { settings: s, id, file, sync, editor: e2 }, req),
            Step::Done(Err(e)) => ends_with_error(r, e),
            Step::Done(Ok(_)) => r.0 == Session::Reading { settings: s, id, file, sync, status: None }
                && is_read(r.1, file@),
        }
}

fn on_edit_editor(
    s: Settings,
    id: String,
    file: String,
    sync: bool,
    editor: Editor,
    reply: Reply,
) -> (r: (Session, Request))
    requires
        editor.accepts(reply),
    ensures
        edit_editor_next(s, id, file, sync, editor, reply, r),
{
    let ghost g = editor;
    let st = editor.step(reply);
    assert(editor_next(g, reply, st));
    match st {
        Step::Next(e2, req) => (Session::EditEditor { settings: s, id, file, sync, editor: e2 }, req),
        Step::Done(Err(e)) => (Session::Finished, Request::Finish { result: Err(e) }),
        Step::Done(Ok(_)) => {
            let f2 = file.clone();
            (Session::Reading { settings: s, id, file, sync, status: None }, Request::ReadFile { path: f2 })
        },
    }
}

/// The fields after an update: the new status, if any, then the `updated`
/// time.
pub open spec fn updated_fields(
    fields: crate::frontmatter::FieldsModel,
    status: Option<Seq<char>>,
    now: Seq<char>,
) -> crate::frontmatter::FieldsModel {
    match status {
        Some(st) => crate::frontmatter::set_field(
            crate::frontmatter::set_field(fields, "status"@, st),
            "updated"@,
            now,
        ),
        None => crate::frontmatter::set_field(fields, "updated"@, now),
    }
}

/// Reading an issue to update it: it is parsed, given the new status (if
/// any) and the current time as `updated`, and written back.
pub open spec fn reading_next(
    s: Settings,
    id: String,
    file: String,
    sync: bool,
    status: Option<String>,
    text: Result<String, String>,
    r: (Session, Request),
) -> bool {
    match text {
        Err(cause) => ends_with_error(r, IssueError::CannotRead { path: file, cause }),
        Ok(raw) => exists|now: Seq<char>|
            #[trigger] crate::util::is_utc_timestamp(now) && {
                let doc = crate::frontmatter::parse_spec(raw@);
                &&& r.0 == Session::Writing { settings: s, id, file, sync, status }
                &&& crate::request::is_write(
                    r.1,
                    file@,
                    crate::frontmatter::render_spec(
                        updated_fields(doc.0, opt_model(status), now),
                        doc.1,
                    ),
                )
            },
    }
}

fn on_reading(
    s: Settings,
    id: String,
    file: String,
    sync: bool,
    status: Option<String>,
    text: Result<String, String>,
) -> (r: (Session, Request))
    ensures
        reading_next(s, id, file, sync, status, text, r),
{
    match text {
        Err(cause) => (Session::Finished, Request::Finish { result: Err(IssueError::CannotRead { path: file, cause }) }),
        Ok(raw) => {
            let mut doc = Document::parse(raw.as_str());
            match &status {
                Some(st) => doc.set("status", st.as_str()),
                None => {},
            }
            let now = crate::util::utc_now();
            doc.set("updated", now.as_str());
            let contents = doc.render();
            let f2 = file.clone();
            let r = (
                Session::Writing { settings: s, id, file, sync, status },
                Request::WriteFile { path: f2, contents },
            );
            assert(doc@.0 == updated_fields(crate::frontmatter::parse_spec(raw@).0, opt_model(r.0->Writing_status), now@));
            r
        },
    }
}

/// The commit message of an update.
pub open spec fn update_message(id: Seq<char>, status: Option<Seq<char>>) -> Seq<char> {
    match status {
        Some(st) => "issues: "@ + st + " "@ + id,
        None => "issues: update "@ + id,
    }
}

/// What an update prints once committed.
pub open spec fn update_report(id: Seq<char>, status: Option<Seq<char>>) -> Seq<char> {
    match status {
        Some(st) => "Marked "@ + id + " as "@ + st,
        None => "Updated "@ + id,
    }
}

/// Writing an updated issue: then it is committed.
pub open spec fn writing_next(
    s: Settings,
    id: String,
    file: String,
    sync: bool,
    status: Option<String>,
    result: Result<(), String>,
    r: (Session, Request),
) -> bool {
    match result {
        Err(cause) => ends_with_error(r, IssueError::CannotWrite { path: file, cause }),
        Ok(_) => commit_start_next(
            s,
            sync,
            update_report(id@, opt_model(status)),
            issue_rel_spec(id@),
            update_message(id@, opt_model(status)),
            r,
        ),
    }
}

fn on_writing(
    s: Settings,
    id: String,
    file: String,
    sync: bool,
    status: Option<String>,
    result: Result<(), String>,
) -> (r: (Session, Request))
    ensures
        writing_next(s, id, file, sync, status, result, r),
{
    match result {
        Err(cause) => (Session::Finished, Request::Finish { result: Err(IssueError::CannotWrite { path: file, cause }) }),
        Ok(_) => {
            let rel = issue_rel(id.as_str());
            let (message, report) = match &status {
                Some(st) => {
                    let mut m = "issues: ".to_owned();
                    push_str(&mut m, st.as_str());
                    push_str(&mut m, " ");
                    push_str(&mut m, id.as_str());
                    let mut rp = "Marked ".to_owned();
                    push_str(&mut rp, id.as_str());
                    push_str(&mut rp, " as ");
                    push_str(&mut rp, st.as_str());
                    (m, rp)
                },
                None => {
                    let mut m = "issues: update ".to_owned();
                    push_str(&mut m, id.as_str());
                    let mut rp = "Updated ".to_owned();
                    push_str(&mut rp, id.as_str());
                    (m, rp)
                },
            };
            start_commit(s, sync, report, rel, message)
        },
    }
}

/// Committing: when done, the report is printed.
pub open spec fn committing_next(
    s: Settings,
    sync: bool,
    report: String,
    commit: Commit,
    reply: Reply,
    r: (Session, Request),
) -> bool {
    exists|st: Step<Commit, Result<(), IssueError>>|
        #[trigger] commit_next(commit, reply, st) && match st {
            Step::Next(c2, req) => r == (Session::Committing { settings: s, sync, report, commit: c2 }, req),
            Step::Done(Err(e)) => ends_with_error(r, e),
            Step::Done(Ok(_)) => r == (
                Session::Reporting { settings: s, sync },
                Request::Print { text: report, newline: true },
            ),
        }
}

fn on_committing(s: Settings, sync: bool, report: String, commit: Commit, reply: Reply) -> (r: (Session, Request))
    requires
        reply is Git,
    ensures
        committing_next(s, sync, report, commit, reply, r),
{
    let ghost g = commit;
    let st = commit.step(reply);
    assert(commit_next(g, reply, st));
    match st {
        Step::Next(c2, req) => (Session::Committing { settings: s, sync, report, commit: c2 }, req),
        Step::Done(Err(e)) => (Session::Finished, Request::Finish { result: Err(e) }),
        Step::Done(Ok(_)) => (Session::Reporting { settings: s, sync }, Request::Print { text: report, newline: true }),
    }
}

/// After the report: sync if asked to, else done.
pub open spec fn reporting_next(s: Settings, sync: bool, r: (Session, Request)) -> bool {
    if sync {
        sync_start_next(s, r)
    } else {
        ends_ok(r)
    }
}

fn on_reporting(s: Settings, sync: bool) -> (r: (Session, Request))
    ensures
        reporting_next(s, sync, r),
{
    if sync {
        start_sync(s)
    } else {
        (Session::Finished, Request::Finish { result: Ok(()) })
    }
}

/// Syncing: the sync's own result ends the subcommand.
pub open spec fn sync_run_next(stage: Syncing, reply: Reply, r: (Session, Request)) -> bool {
    exists|st: Step<Syncing, Result<(), IssueError>>|
        #[trigger] syncing_next(stage, reply, st) && match st {
            Step::Next(s2, req) => r == (Session::SyncRun { sync_stage: s2 }, req),
            Step::Done(res) => r == (Session::Finished, Request::Finish { result: res }),
        }
}

fn on_sync_run(stage: Syncing, reply: Reply) -> (r: (Session, Request))
    requires
        stage.accepts(reply),
    ensures
        sync_run_next(stage, reply, r),
{
    let ghost g = stage;
    let st = stage.step(reply);
    assert(syncing_next(g, reply, st));
    match st {
        Step::Next(s2, req) => (Session::SyncRun { sync_stage: s2 }, req),
        Step::Done(res) => (Session::Finished, Request::Finish { result: res }),
    }
}

// ---------------------------------------------------------------------------
// list
// ---------------------------------------------------------------------------

/// A directory entry that is an issue file: its extension is `md`.
pub open spec fn is_md(name: Seq<char>) -> bool {
    crate::path::extension_of(name) == Some("md"@)
}

/// The first issue file among the entries from `i` on.
pub open spec fn next_md(names: Seq<Seq<char>>, i: int) -> Option<int>
    decreases names.len() - i,
{
    if i < 0 || i >= names.len() {
        None
    } else if is_md(names[i]) {
        Some(i)
    } else {
        next_md(names, i + 1)
    }
}

/// The end of `list`: the rows in order, printed one per line, or
/// `No issues found.` when there are none.
pub open spec fn finish_list_next(rows: Seq<crate::listing::RowModel>, r: (Session, Request)) -> bool {
    if rows.len() == 0 {
        r.0 is Printing && is_print(r.1, "No issues found."@, true)
    } else {
        exists|sorted: Seq<crate::listing::RowModel>|
            #[trigger] crate::listing::rows_sorted(sorted) && sorted.to_multiset() == rows.to_multiset()
                && {
                let lines = crate::listing::list_lines(sorted);
                &&& r.0 matches Session::ListPrint { lines: l, next } && next == 1 && strs(l@)
                    == lines
                &&& is_print(r.1, lines[0], true)
            }
    }
}

fn finish_list(rows: Vec<crate::listing::Row>) -> (r: (Session, Request))
    ensures
        finish_list_next(crate::listing::rows_model(rows@), r),
{
    let ghost m = crate::listing::rows_model(rows@);
    let sorted = crate::listing::sort_rows(rows);
    proof {
        vstd::seq_lib::to_multiset_len(m);
        vstd::seq_lib::to_multiset_len(crate::listing::rows_model(sorted@));
    }
    if sorted.len() == 0 {
        assert(m.len() == 0);
        let text = "No issues found.".to_owned();
        return (Session::Printing, Request::Print { text, newline: true });
    }
    let lines = crate::listing::format_rows(&sorted);
    let first = lines[0].clone();
    let ghost sm = crate::listing::rows_model(sorted@);
    assert(strs(lines@) =~= crate::listing::list_lines(sm));
    (Session::ListPrint { lines, next: 1 }, Request::Print { text: first, newline: true })
}

/// Scanning the entries from `i` on: the next issue file is read; after the
/// last one the rows are printed.
pub open spec fn scan_next(
    want_status: Option<String>,
    want_label: Option<String>,
    dir: String,
    names: Vec<String>,
    i: int,
    rows: Seq<crate::listing::RowModel>,
    r: (Session, Request),
) -> bool {
    match next_md(strs(names@), i) {
        Some(j) => r.0 matches Session::ListRead {
            want_status: ws,
            want_label: wl,
            dir: d,
            names: n,
            next,
            rows: rw,
        } && ws == want_status && wl == want_label && d == dir && n == names && next == j + 1
            && crate::listing::rows_model(rw@) == rows && is_read(r.1, path_join(dir@, names@[j]@)),
        None => finish_list_next(rows, r),
    }
}

fn is_md_name(name: &str) -> (r: bool)
    ensures
        r == is_md(name@),
{
    match crate::path::extension(name) {
        Some(e) => crate::text::str_eq(e.as_str(), "md"),
        None => false,
    }
}

fn scan(
    want_status: Option<String>,
    want_label: Option<String>,
    dir: String,
    names: Vec<String>,
    i: usize,
    rows: Vec<crate::listing::Row>,
) -> (r: (Session, Request))
    ensures
        scan_next(want_status, want_label, dir, names, i as int, crate::listing::rows_model(rows@), r),
{
    let ghost nm = strs(names@);
    let mut j: usize = i;
    while j < names.len() && !is_md_name(names[j].as_str())
        invariant
            i <= j,
            nm == strs(names@),
            next_md(nm, i as int) == next_md(nm, j as int),
        decreases names.len() - j,
    {
        assert(nm[j as int] == names@[j as int]@);
        j = j + 1;
    }
    if j < names.len() {
        assert(nm[j as int] == names@[j as int]@);
        let path = join_path(dir.as_str(), names[j].as_str());
        (
            Session::ListRead { want_status, want_label, dir, names, next: j + 1, rows },
            Request::ReadFile { path },
        )
    } else {
        finish_list(rows)
    }
}

/// Listing the issues directory: an unreadable one ends `list`.
pub open spec fn list_dir_next(
    want_status: Option<String>,
    want_label: Option<String>,
    dir: String,
    names: Result<Vec<String>, String>,
    r: (Session, Request),
) -> bool {
    match names {
        Err(cause) => ends_with_error(r, IssueError::CannotRead { path: dir, cause }),
        Ok(n) => scan_next(want_status, want_label, dir, n, 0, Seq::empty(), r),
    }
}

fn on_list_dir(
    want_status: Option<String>,
    want_label: Option<String>,
    dir: String,
    names: Result<Vec<String>, String>,
) -> (r: (Session, Request))
    ensures
        list_dir_next(want_status, want_label, dir, names, r),
{
    match names {
        Err(cause) => (Session::Finished, Request::Finish { result: Err(IssueError::CannotRead { path: dir, cause }) }),
        Ok(n) => {
            let rows: Vec<crate::listing::Row> = Vec::new();
            assert(crate::listing::rows_model(rows@) =~= Seq::empty());
            scan(want_status, want_label, dir, n, 0, rows)
        },
    }
}

/// The rows after reading an issue: its row is added when it passes the
/// filters.
pub open spec fn rows_after(
    rows: Seq<crate::listing::RowModel>,
    raw: Seq<char>,
    name: Seq<char>,
    want_status: Option<String>,
    want_label: Option<String>,
) -> Seq<crate::listing::RowModel> {
    let fields = crate::frontmatter::parse_spec(raw).0;
    if crate::listing::selected(fields, opt_model(want_status), opt_model(want_label)) {
        rows.push(crate::listing::row_spec(fields, name))
    } else {
        rows
    }
}

/// Reading an issue file for `list`: an unreadable one ends `list`;
/// otherwise its row is kept if it passes the filters, and the scan goes on.
pub open spec fn list_read_next(
    want_status: Option<String>,
    want_label: Option<String>,
    dir: String,
    names: Vec<String>,
    next: usize,
    rows: Vec<crate::listing::Row>,
    text: Result<String, String>,
    r: (Session, Request),
) -> bool {
    let name = names@[next - 1]@;
    match text {
        Err(cause) => {
            &&& r.0 is Finished
            &&& r.1 matches Request::Finish { result: Err(IssueError::CannotRead { path, cause: c }) }
                && path@ == path_join(dir@, name) && c == cause
        },
        Ok(raw) => scan_next(
            want_status,
            want_label,
            dir,
            names,
            next as int,
            rows_after(crate::listing::rows_model(rows@), raw@, name, want_status, want_label),
            r,
        ),
    }
}

fn on_list_read(
    want_status: Option<String>,
    want_label: Option<String>,
    dir: String,
    names: Vec<String>,
    next: usize,
    rows: Vec<crate::listing::Row>,
    text: Result<String, String>,
) -> (r: (Session, Request))
    requires
        1 <= next <= names@.len(),
    ensures
        list_read_next(want_status, want_label, dir, names, next, rows, text, r),
{
    match text {
        Err(cause) => {
            let path = join_path(dir.as_str(), names[next - 1].as_str());
            (Session::Finished, Request::Finish { result: Err(IssueError::CannotRead { path, cause }) })
        },
        Ok(raw) => {
            let doc = Document::parse(raw.as_str());
            let mut rows = rows;
            let ghost before = crate::listing::rows_model(rows@);
            if crate::listing::is_selected(&doc, &want_status, &want_label) {
                let row = crate::listing::issue_row(&doc, names[next - 1].as_str());
                rows.push(row);
                assert(crate::listing::rows_model(rows@) =~= before.push(crate::listing::row_model(row)));
            }
            scan(want_status, want_label, dir, names, next, rows)
        },
    }
}

/// Printing the rows one line at a time.
pub open spec fn list_print_next(lines: Vec<String>, next: usize, r: (Session, Request)) -> bool {
    if next < lines@.len() {
        r.0 matches Session::ListPrint { lines: l, next: n } && l == lines && n == next + 1
            && is_print(r.1, lines@[next as int]@, true)
    } else {
        ends_ok(r)
    }
}

fn on_list_print(lines: Vec<String>, next: usize) -> (r: (Session, Request))
    ensures
        list_print_next(lines, next, r),
{
    if next < lines.len() {
        let text = lines[next].clone();
        (Session::ListPrint { lines, next: next + 1 }, Request::Print { text, newline: true })
    } else {
        (Session::Finished, Request::Finish { result: Ok(()) })
    }
}

// ---------------------------------------------------------------------------
// complete-ids
// ---------------------------------------------------------------------------

/// The ID of the issue file `name` holding `raw`: its `id` field, else the
/// file's stem.
pub open spec fn issue_id_of(raw: Seq<char>, name: Seq<char>) -> Seq<char> {
    crate::listing::row_spec(crate::frontmatter::parse_spec(raw).0, name).0
}

/// The end of `complete-ids`: the IDs in order, one per line, or nothing.
pub open spec fn finish_ids_next(ids: Seq<Seq<char>>, r: (Session, Request)) -> bool {
    if ids.len() == 0 {
        ends_ok(r)
    } else {
        exists|sorted: Seq<Seq<char>>|
            #[trigger] crate::listing::texts_sorted(sorted) && sorted.to_multiset() == ids.to_multiset()
                && {
                &&& r.0 matches Session::ListPrint { lines: l, next } && next == 1 && strs(l@) == sorted
                &&& is_print(r.1, sorted[0], true)
            }
    }
}

fn finish_ids(ids: Vec<String>) -> (r: (Session, Request))
    ensures
        finish_ids_next(strs(ids@), r),
{
    let sorted = crate::listing::sort_texts(ids);
    proof {
        vstd::seq_lib::to_multiset_len(strs(ids@));
        vstd::seq_lib::to_multiset_len(strs(sorted@));
    }
    if sorted.len() == 0 {
        return (Session::Finished, Request::Finish { result: Ok(()) });
    }
    let first = sorted[0].clone();
    assert(strs(sorted@)[0] == first@);
    (Session::ListPrint { lines: sorted, next: 1 }, Request::Print { text: first, newline: true })
}

/// Scanning the entries from `i` on: the next issue file is read; after the
/// last one the IDs are printed.
pub open spec fn ids_scan_next(
    dir: String,
    names: Vec<String>,
    i: int,
    ids: Seq<Seq<char>>,
    r: (Session, Request),
) -> bool {
    match next_md(strs(names@), i) {
        Some(j) => r.0 matches Session::IdsRead { dir: d, names: n, next, ids: is } && d == dir && n
            == names && next == j + 1 && strs(is@) == ids && is_read(r.1, path_join(dir@, names@[j]@)),
        None => finish_ids_next(ids, r),
    }
}

fn ids_scan(dir: String, names: Vec<String>, i: usize, ids: Vec<String>) -> (r: (Session, Request))
    ensures
        ids_scan_next(dir, names, i as int, strs(ids@), r),
{
    let ghost nm = strs(names@);
    let mut j: usize = i;
    while j < names.len() && !is_md_name(names[j].as_str())
        invariant
            i <= j,
            nm == strs(names@),
            next_md(nm, i as int) == next_md(nm, j as int),
        decreases names.len() - j,
    {
        assert(nm[j as int] == names@[j as int]@);
        j = j + 1;
    }
    if j < names.len() {
        assert(nm[j as int] == names@[j as int]@);
        let path = join_path(dir.as_str(), names[j].as_str());
        (Session::IdsRead { dir, names, next: j + 1, ids }, Request::ReadFile { path })
    } else {
        finish_ids(ids)
    }
}

/// Listing the issues directory for `complete-ids`: an unreadable one
/// leaves nothing to print.
pub open spec fn ids_dir_next(dir: String, names: Result<Vec<String>, String>, r: (Session, Request)) -> bool {
    match names {
        Err(_) => ends_ok(r),
        Ok(n) => ids_scan_next(dir, n, 0, Seq::empty(), r),
    }
}

fn on_ids_dir(dir: String, names: Result<Vec<String>, String>) -> (r: (Session, Request))
    ensures
        ids_dir_next(dir, names, r),
{
    match names {
        Err(_) => (Session::Finished, Request::Finish { result: Ok(()) }),
        Ok(n) => {
            let ids: Vec<String> = Vec::new();
            assert(strs(ids@) =~= Seq::empty());
            ids_scan(dir, n, 0, ids)
        },
    }
}

/// Reading an issue file for `complete-ids`: its ID is added, or the file
/// is skipped when it cannot be read, and the scan goes on.
pub open spec fn ids_read_next(
    dir: String,
    names: Vec<String>,
    next: usize,
    ids: Vec<String>,
    text: Result<String, String>,
    r: (Session, Request),
) -> bool {
    match text {
        Err(_) => ids_scan_next(dir, names, next as int, strs(ids@), r),
        Ok(raw) => ids_scan_next(
            dir,
            names,
            next as int,
            strs(ids@).push(issue_id_of(raw@, names@[next - 1]@)),
            r,
        ),
    }
}

fn on_ids_read(
    dir: String,
    names: Vec<String>,
    next: usize,
    ids: Vec<String>,
    text: Result<String, String>,
) -> (r: (Session, Request))
    requires
        1 <= next <= names@.len(),
    ensures
        ids_read_next(dir, names, next, ids, text, r),
{
    match text {
        Err(_) => ids_scan(dir, names, next, ids),
        Ok(raw) => {
            let doc = Document::parse(raw.as_str());
            let row = crate::listing::issue_row(&doc, names[next - 1].as_str());
            let mut ids = ids;
            let ghost before = strs(ids@);
            ids.push(row.0);
            assert(strs(ids@) =~= before.push(issue_id_of(raw@, names@[next - 1]@)));
            ids_scan(dir, names, next, ids)
        },
    }
}

// ---------------------------------------------------------------------------
// init
// ---------------------------------------------------------------------------

/// A skill file `init` installs into the repository: its `label` (as the
/// report names it), its path `rel` relative to the repository root, and its
/// text.
pub struct Skill {
    pub label: String,
    pub rel: String,
    pub text: String,
}

/// Position of the last `/` in `s`.
pub open spec fn last_slash(s: Seq<char>) -> Option<int>
    decreases s.len(),
{
    if s.len() == 0 {
        None
    } else if s.last() == '/' {
        Some(s.len() - 1)
    } else {
        last_slash(s.drop_last())
    }
}

/// The directory holding `root/rel`: `rel` up to its last `/`, under the
/// root (the root itself when `rel` is a bare name).
pub open spec fn skill_dir(root: Seq<char>, rel: Seq<char>) -> Seq<char> {
    match last_slash(rel) {
        Some(i) => path_join(root, rel.take(i)),
        None => root,
    }
}

/// The directory holding the skill file.
fn skill_dir_of(root: &str, rel: &str) -> (d: String)
    ensures
        d@ == skill_dir(root@, rel@),
{
    let cs = crate::text::chars_of(rel);
    let mut k: usize = cs.len();
    assert(cs@.take(k as int) == cs@);
    while k > 0
        invariant
            k <= cs.len(),
            cs@ == rel@,
            last_slash(cs@) == last_slash(cs@.take(k as int)),
        decreases k,
    {
        if cs[k - 1] == '/' {
            let head = crate::text::slice_vec(cs.as_slice(), 0, k - 1);
            let hs = crate::text::string_of(head.as_slice());
            assert(hs@ == rel@.take(k - 1));
            return join_path(root, hs.as_str());
        }
        assert(cs@.take(k as int).drop_last() == cs@.take(k - 1));
        k = k - 1;
    }
    root.to_owned()
}

/// What `init` reports once the skill is installed.
pub open spec fn skill_report(skill: Skill) -> Seq<char> {
    "Installed "@ + skill.label@ + " skill to "@ + skill.rel@
}

/// `--version`.
pub open spec fn version_args() -> Seq<Seq<char>> {
    seq!["--version"@]
}

/// `fetch <remote> <branch>`.
pub open spec fn init_fetch_args(remote: Seq<char>, branch: Seq<char>) -> Seq<Seq<char>> {
    seq!["fetch"@, remote, branch]
}

/// `worktree add <path> <branch>`.
pub open spec fn attach_args(path: Seq<char>, branch: Seq<char>) -> Seq<Seq<char>> {
    seq!["worktree"@, "add"@, path, branch]
}

/// `worktree add --orphan -b <branch> <path>`.
pub open spec fn orphan_args(path: Seq<char>, branch: Seq<char>) -> Seq<Seq<char>> {
    seq!["worktree"@, "add"@, "--orphan"@, "-b"@, branch, path]
}

/// `<what> branch '<branch>' at <path>`.
pub open spec fn branch_message(what: Seq<char>, s: Settings) -> Seq<char> {
    what + " branch '"@ + s.branch@ + "' at "@ + s.path@
}

/// Set up (or reconnect) the issues worktree, installing `skill` into the
/// repository if one is given. The first step asks for git's version.
pub fn init(branch: Option<String>, path: Option<String>, skill: Option<Skill>) -> (r: (Session, Request))
    ensures
        r.0 == (Session::InitVersion { new_branch: branch, new_path: path, skill }),
        is_git(r.1, version_args(), false),
        keeps_protocol(r),
{
    let args = vec!["--version".to_owned()];
    assert(strs(args@) =~= version_args());
    (Session::InitVersion { new_branch: branch, new_path: path, skill }, Request::Git { args, inherit: false })
}

/// After git's version: an old git is refused; otherwise the root is asked
/// for.
pub open spec fn init_version_next(
    new_branch: Option<String>,
    new_path: Option<String>,
    skill: Option<Skill>,
    reply: Reply,
    r: (Session, Request),
) -> bool {
    match capture_spec(version_args(), git_out(reply)) {
        Err(m) => ends_with_capture_error(r, m),
        Ok(raw) => if !crate::version::version_supported(crate::version::version_of(raw)) {
            &&& r.0 is Finished
            &&& r.1 matches Request::Finish { result: Err(IssueError::GitTooOld { found }) } && found@ == raw
        } else {
            r.0 == (Session::InitRoot { new_branch, new_path, skill }) && is_git(
                r.1,
                crate::config::root_args(),
                false,
            )
        },
    }
}

fn on_init_version(
    new_branch: Option<String>,
    new_path: Option<String>,
    skill: Option<Skill>,
    out: Result<GitOutput, String>,
) -> (r: (Session, Request))
    ensures
        init_version_next(new_branch, new_path, skill, Reply::Git { out }, r),
{
    let args = vec!["--version".to_owned()];
    assert(strs(args@) =~= version_args());
    match capture(args.as_slice(), out) {
        Err(e) => (Session::Finished, Request::Finish { result: Err(e) }),
        Ok(raw) => match crate::version::ensure_version(raw.as_str()) {
            Err(e) => (Session::Finished, Request::Finish { result: Err(e) }),
            Ok(_) => (
                Session::InitRoot { new_branch, new_path, skill },
                Request::Git { args: crate::config::root_args_vec(), inherit: false },
            ),
        },
    }
}

/// Once the root is known (and the skill dealt with): store the branch name
/// if one was given, else go on to the path.
pub open spec fn after_skill_next(new_branch: Option<String>, new_path: Option<String>, r: (Session, Request)) -> bool {
    match new_branch {
        Some(b) => r.0 == (Session::InitSetBranch { value: b, new_path }) && is_git(
            r.1,
            crate::config::set_args("issues.branch"@, b@),
            false,
        ),
        None => after_branch_next(new_path, r),
    }
}

/// After the branch: store the worktree path (made absolute) if one was
/// given, else resolve the settings.
pub open spec fn after_branch_next(new_path: Option<String>, r: (Session, Request)) -> bool {
    match new_path {
        Some(p) => if crate::path::is_absolute(p@) {
            r.0 == (Session::InitSetPath { value: p }) && is_git(
                r.1,
                crate::config::set_args("issues.worktreepath"@, p@),
                false,
            )
        } else {
            r.0 == (Session::InitCwd { rel: p }) && r.1 is CurrentDir
        },
        None => r.0 == (Session::InitResolving { init_stage: Resolve::Root }) && is_git(
            r.1,
            crate::config::root_args(),
            false,
        ),
    }
}

fn after_branch(new_path: Option<String>) -> (r: (Session, Request))
    ensures
        after_branch_next(new_path, r),
{
    match new_path {
        Some(p) => {
            if crate::path::path_is_absolute(p.as_str()) {
                let args = crate::config::set_args_for("issues.worktreepath", p.as_str());
                (Session::InitSetPath { value: p }, Request::Git { args, inherit: false })
            } else {
                (Session::InitCwd { rel: p }, Request::CurrentDir)
            }
        },
        None => {
            let (stage, req) = resolve();
            (Session::InitResolving { init_stage: stage }, req)
        },
    }
}

fn after_skill(new_branch: Option<String>, new_path: Option<String>) -> (r: (Session, Request))
    ensures
        after_skill_next(new_branch, new_path, r),
{
    match new_branch {
        Some(b) => {
            let args = crate::config::set_args_for("issues.branch", b.as_str());
            (Session::InitSetBranch { value: b, new_path }, Request::Git { args, inherit: false })
        },
        None => after_branch(new_path),
    }
}

/// After the root: install the skill, if one is given.
pub open spec fn init_root_next(
    new_branch: Option<String>,
    new_path: Option<String>,
    skill: Option<Skill>,
    reply: Reply,
    r: (Session, Request),
) -> bool {
    match capture_spec(crate::config::root_args(), git_out(reply)) {
        Err(m) => {
            &&& r.0 is Finished
            &&& r.1 matches Request::Finish { result: Err(IssueError::NotInRepository { source }) }
                && captured_model(Err(*source)) == Err::<Seq<char>, _>(m)
        },
        Ok(root) => match skill {
            None => after_skill_next(new_branch, new_path, r),
            Some(k) => {
                &&& r.0 matches Session::InitSkillCheck { new_branch: b, new_path: p, dir, file, skill: k2 }
                    && b == new_branch && p == new_path && k2 == k && dir@ == skill_dir(root, k.rel@)
                    && file@ == path_join(root, k.rel@)
                &&& is_exists(r.1, path_join(root, k.rel@))
            },
        },
    }
}

fn on_init_root(
    new_branch: Option<String>,
    new_path: Option<String>,
    skill: Option<Skill>,
    out: Result<GitOutput, String>,
) -> (r: (Session, Request))
    ensures
        init_root_next(new_branch, new_path, skill, Reply::Git { out }, r),
{
    match crate::config::repo_root(out) {
        Err(e) => (Session::Finished, Request::Finish { result: Err(e) }),
        Ok(root) => {
            let skill = match skill {
                None => {
                    return after_skill(new_branch, new_path);
                },
                Some(k) => k,
            };
            let file = join_path(root.as_str(), skill.rel.as_str());
            let dir = skill_dir_of(root.as_str(), skill.rel.as_str());
            let f2 = file.clone();
            (
                Session::InitSkillCheck { new_branch, new_path, dir, file, skill },
                Request::Exists { path: f2 },
            )
        },
    }
}

/// The skill file is left alone when it exists (local edits survive);
/// otherwise its directory is created.
pub open spec fn init_skill_check_next(
    new_branch: Option<String>,
    new_path: Option<String>,
    dir: String,
    file: String,
    skill: Skill,
    found: bool,
    r: (Session, Request),
) -> bool {
    if found {
        after_skill_next(new_branch, new_path, r)
    } else {
        r.0 == (Session::InitSkillDir { new_branch, new_path, dir, file, skill }) && crate::request::is_mkdir(r.1, dir@)
    }
}

fn on_init_skill_check(
    new_branch: Option<String>,
    new_path: Option<String>,
    dir: String,
    file: String,
    skill: Skill,
    found: bool,
) -> (r: (Session, Request))
    ensures
        init_skill_check_next(new_branch, new_path, dir, file, skill, found, r),
{
    if found {
        after_skill(new_branch, new_path)
    } else {
        let d2 = dir.clone();
        (Session::InitSkillDir { new_branch, new_path, dir, file, skill }, Request::CreateDirAll { path: d2 })
    }
}

/// The skill's directory made: the skill file is written.
pub open spec fn init_skill_dir_next(
    new_branch: Option<String>,
    new_path: Option<String>,
    dir: String,
    file: String,
    skill: Skill,
    result: Result<(), String>,
    r: (Session, Request),
) -> bool {
    match result {
        Err(cause) => ends_with_error(r, IssueError::CannotCreate { path: dir, cause }),
        Ok(_) => r.0 matches Session::InitSkillWrite { new_branch: b, new_path: p, file: f, report }
            && b == new_branch && p == new_path && f == file && report@ == skill_report(skill) && is_write(
            r.1,
            file@,
            skill.text@,
        ),
    }
}

fn on_init_skill_dir(
    new_branch: Option<String>,
    new_path: Option<String>,
    dir: String,
    file: String,
    skill: Skill,
    result: Result<(), String>,
) -> (r: (Session, Request))
    ensures
        init_skill_dir_next(new_branch, new_path, dir, file, skill, result, r),
{
    match result {
        Err(cause) => (Session::Finished, Request::Finish { result: Err(IssueError::CannotCreate { path: dir, cause }) }),
        Ok(_) => {
            let f2 = file.clone();
            let mut report = "Installed ".to_owned();
            push_str(&mut report, skill.label.as_str());
            push_str(&mut report, " skill to ");
            push_str(&mut report, skill.rel.as_str());
            (
                Session::InitSkillWrite { new_branch, new_path, file, report },
                Request::WriteFile { path: f2, contents: skill.text },
            )
        },
    }
}

/// The skill written: report it.
pub open spec fn init_skill_write_next(
    new_branch: Option<String>,
    new_path: Option<String>,
    file: String,
    report: String,
    result: Result<(), String>,
    r: (Session, Request),
) -> bool {
    match result {
        Err(cause) => ends_with_error(r, IssueError::CannotWrite { path: file, cause }),
        Ok(_) => r.0 == (Session::InitSkillReport { new_branch, new_path }) && r.1 == Request::Print {
            text: report,
            newline: true,
        },
    }
}

fn on_init_skill_write(
    new_branch: Option<String>,
    new_path: Option<String>,
    file: String,
    report: String,
    result: Result<(), String>,
) -> (r: (Session, Request))
    ensures
        init_skill_write_next(new_branch, new_path, file, report, result, r),
{
    match result {
        Err(cause) => (Session::Finished, Request::Finish { result: Err(IssueError::CannotWrite { path: file, cause }) }),
        Ok(_) => (Session::InitSkillReport { new_branch, new_path }, Request::Print { text: report, newline: true }),
    }
}

/// A config value stored: go on; a failure ends `init`.
pub open spec fn init_set_next(
    key: Seq<char>,
    value: Seq<char>,
    reply: Reply,
    then: spec_fn((Session, Request)) -> bool,
    r: (Session, Request),
) -> bool {
    match capture_spec(crate::config::set_args(key, value), git_out(reply)) {
        Err(m) => ends_with_capture_error(r, m),
        Ok(_) => then(r),
    }
}

fn on_init_set_branch(value: String, new_path: Option<String>, out: Result<GitOutput, String>) -> (r: (Session, Request))
    ensures
        init_set_next(
            "issues.branch"@,
            value@,
            Reply::Git { out },
            |r2: (Session, Request)| after_branch_next(new_path, r2),
            r,
        ),
{
    match crate::config::set("issues.branch", value.as_str(), out) {
        Err(e) => (Session::Finished, Request::Finish { result: Err(e) }),
        Ok(_) => after_branch(new_path),
    }
}

/// The current directory known: the worktree path is made absolute against
/// it and stored.
pub open spec fn init_cwd_next(rel: String, dir: Result<String, String>, r: (Session, Request)) -> bool {
    match dir {
        Err(cause) => ends_with_error(r, IssueError::CurrentDir { cause }),
        Ok(cwd) => r.0 matches Session::InitSetPath { value } && value@ == path_join(cwd@, rel@)
            && is_git(r.1, crate::config::set_args("issues.worktreepath"@, path_join(cwd@, rel@)), false),
    }
}

fn on_init_cwd(rel: String, dir: Result<String, String>) -> (r: (Session, Request))
    ensures
        init_cwd_next(rel, dir, r),
{
    match dir {
        Err(cause) => (Session::Finished, Request::Finish { result: Err(IssueError::CurrentDir { cause }) }),
        Ok(cwd) => {
            let value = join_path(cwd.as_str(), rel.as_str());
            let args = crate::config::set_args_for("issues.worktreepath", value.as_str());
            (Session::InitSetPath { value }, Request::Git { args, inherit: false })
        },
    }
}

fn on_init_set_path(value: String, out: Result<GitOutput, String>) -> (r: (Session, Request))
    ensures
        init_set_next(
            "issues.worktreepath"@,
            value@,
            Reply::Git { out },
            |r2: (Session, Request)| r2.0 == (Session::InitResolving { init_stage: Resolve::Root })
                && is_git(r2.1, crate::config::root_args(), false),
            r,
        ),
{
    match crate::config::set("issues.worktreepath", value.as_str(), out) {
        Err(e) => (Session::Finished, Request::Finish { result: Err(e) }),
        Ok(_) => {
            let (stage, req) = resolve();
            (Session::InitResolving { init_stage: stage }, req)
        },
    }
}

/// Resolving for `init`: once settled, check for an existing worktree.
pub open spec fn init_resolving_next(stage: Resolve, reply: Reply, r: (Session, Request)) -> bool {
    exists|st: Step<Resolve, Result<Settings, IssueError>>|
        #[trigger] crate::config::resolve_next(stage, reply, st) && match st {
            Step::Next(s2, req) => r == (Session::InitResolving { init_stage: s2 }, req),
            Step::Done(Err(e)) => ends_with_error(r, e),
            Step::Done(Ok(s)) => r.0 matches Session::InitCheck { settings: s2 } && s2 == s && is_exists(
                r.1,
                dot_git(s.path@),
            ),
        }
}

fn on_init_resolving(stage: Resolve, reply: Reply) -> (r: (Session, Request))
    requires
        reply is Git,
    ensures
        init_resolving_next(stage, reply, r),
{
    let ghost g = stage;
    let st = stage.step(reply);
    assert(crate::config::resolve_next(g, reply, st));
    match st {
        Step::Next(s2, req) => (Session::InitResolving { init_stage: s2 }, req),
        Step::Done(Err(e)) => (Session::Finished, Request::Finish { result: Err(e) }),
        Step::Done(Ok(s)) => {
            let check = is_initialized(&s);
            (Session::InitCheck { settings: s }, check)
        },
    }
}

/// A worktree already in place is reported; otherwise the path must be free.
pub open spec fn init_check_next(s: Settings, found: bool, r: (Session, Request)) -> bool {
    if found {
        r.0 is Printing && is_print(r.1, branch_message("Already initialized:"@, s), true)
    } else {
        r.0 == (Session::InitPathExists { settings: s }) && is_exists(r.1, s.path@)
    }
}

fn on_init_check(s: Settings, found: bool) -> (r: (Session, Request))
    ensures
        init_check_next(s, found, r),
{
    if found {
        let mut text = "Already initialized:".to_owned();
        push_str(&mut text, " branch '");
        push_str(&mut text, s.branch.as_str());
        push_str(&mut text, "' at ");
        push_str(&mut text, s.path.as_str());
        (Session::Printing, Request::Print { text, newline: true })
    } else {
        let p = s.path.clone();
        (Session::InitPathExists { settings: s }, Request::Exists { path: p })
    }
}

/// Attaching a worktree to the issues branch.
pub open spec fn attach_start_next(s: Settings, r: (Session, Request)) -> bool {
    r.0 == (Session::InitAttach { settings: s }) && is_git(r.1, attach_args(s.path@, s.branch@), false)
}

fn start_attach(s: Settings) -> (r: (Session, Request))
    ensures
        attach_start_next(s, r),
{
    let args = vec!["worktree".to_owned(), "add".to_owned(), s.path.clone(), s.branch.clone()];
    assert(strs(args@) =~= attach_args(s.path@, s.branch@));
    (Session::InitAttach { settings: s }, Request::Git { args, inherit: false })
}

/// Something in the way is refused; otherwise fetch the branch first when
/// there is a remote, then attach.
pub open spec fn init_path_exists_next(s: Settings, found: bool, r: (Session, Request)) -> bool {
    if found {
        ends_with_error(r, IssueError::NotAWorktree { path: s.path })
    } else {
        match s.remote {
            Some(remote) => r.0 == (Session::InitFetch { settings: s }) && is_git(
                r.1,
                init_fetch_args(remote@, s.branch@),
                false,
            ),
            None => attach_start_next(s, r),
        }
    }
}

fn on_init_path_exists(s: Settings, found: bool) -> (r: (Session, Request))
    ensures
        init_path_exists_next(s, found, r),
{
    if found {
        return (Session::Finished, Request::Finish { result: Err(IssueError::NotAWorktree { path: s.path }) });
    }
    match &s.remote {
        Some(remote) => {
            let args = vec!["fetch".to_owned(), remote.clone(), s.branch.clone()];
            assert(strs(args@) =~= init_fetch_args(remote@, s.branch@));
            (Session::InitFetch { settings: s }, Request::Git { args, inherit: false })
        },
        None => start_attach(s),
    }
}

/// After the attach attempt: success is reported; a failure to start git
/// ends `init`; otherwise a new orphan branch is created.
pub open spec fn init_attach_next(s: Settings, out: Result<GitOutput, String>, r: (Session, Request)) -> bool {
    match out {
        Err(cause) => {
            &&& r.0 is Finished
            &&& r.1 matches Request::Finish { result: Err(e) } && is_spawn_error(
                e,
                attach_args(s.path@, s.branch@),
                cause@,
            )
        },
        Ok(o) => if o.success {
            r.0 is Printing && is_print(r.1, branch_message("Attached existing"@, s), true)
        } else {
            &&& r.0 matches Session::InitOrphan { settings: s2, attach_err } && s2 == s && attach_err@
                == trim(o.stderr@)
            &&& is_git(r.1, orphan_args(s.path@, s.branch@), false)
        },
    }
}

fn on_init_attach(s: Settings, out: Result<GitOutput, String>) -> (r: (Session, Request))
    ensures
        init_attach_next(s, out, r),
{
    match out {
        Err(cause) => {
            let args = vec!["worktree".to_owned(), "add".to_owned(), s.path.clone(), s.branch.clone()];
            assert(strs(args@) =~= attach_args(s.path@, s.branch@));
            let command = join_args(args.as_slice());
            (Session::Finished, Request::Finish { result: Err(IssueError::Spawn { command, cause }) })
        },
        Ok(o) => {
            if o.success {
                let mut text = "Attached existing".to_owned();
                push_str(&mut text, " branch '");
                push_str(&mut text, s.branch.as_str());
                push_str(&mut text, "' at ");
                push_str(&mut text, s.path.as_str());
                (Session::Printing, Request::Print { text, newline: true })
            } else {
                let attach_err = crate::git::trimmed(o.stderr.as_str());
                let args = vec![
                    "worktree".to_owned(),
                    "add".to_owned(),
                    "--orphan".to_owned(),
                    "-b".to_owned(),
                    s.branch.clone(),
                    s.path.clone(),
                ];
                assert(strs(args@) =~= orphan_args(s.path@, s.branch@));
                (Session::InitOrphan { settings: s, attach_err }, Request::Git { args, inherit: false })
            }
        },
    }
}

/// After the orphan attempt: a failure reports both attempts; success goes
/// on to create `issues/`.
pub open spec fn init_orphan_next(s: Settings, attach_err: String, out: Result<GitOutput, String>, r: (Session, Request)) -> bool {
    match out {
        Err(cause) => {
            &&& r.0 is Finished
            &&& r.1 matches Request::Finish { result: Err(e) } && is_spawn_error(
                e,
                orphan_args(s.path@, s.branch@),
                cause@,
            )
        },
        Ok(o) => if !o.success {
            &&& r.0 is Finished
            &&& r.1 matches Request::Finish { result: Err(IssueError::WorktreeCreate { attach, orphan }) }
                && attach == attach_err && orphan@ == trim(o.stderr@)
        } else {
            r.0 == (Session::InitMkdir { settings: s }) && crate::request::is_mkdir(
                r.1,
                path_join(s.path@, "issues"@),
            )
        },
    }
}

fn on_init_orphan(s: Settings, attach_err: String, out: Result<GitOutput, String>) -> (r: (Session, Request))
    ensures
        init_orphan_next(s, attach_err, out, r),
{
    match out {
        Err(cause) => {
            let args = vec![
                "worktree".to_owned(),
                "add".to_owned(),
                "--orphan".to_owned(),
                "-b".to_owned(),
                s.branch.clone(),
                s.path.clone(),
            ];
            assert(strs(args@) =~= orphan_args(s.path@, s.branch@));
            let command = join_args(args.as_slice());
            (Session::Finished, Request::Finish { result: Err(IssueError::Spawn { command, cause }) })
        },
        Ok(o) => {
            if !o.success {
                let orphan = crate::git::trimmed(o.stderr.as_str());
                (Session::Finished, Request::Finish { result: Err(IssueError::WorktreeCreate { attach: attach_err, orphan }) })
            } else {
                let dir = join_path(s.path.as_str(), "issues");
                (Session::InitMkdir { settings: s }, Request::CreateDirAll { path: dir })
            }
        },
    }
}

/// `issues/` created: seed it with an empty `.gitkeep`.
pub open spec fn init_mkdir_next(s: Settings, result: Result<(), String>, r: (Session, Request)) -> bool {
    match result {
        Err(cause) => ends_with_error(r, IssueError::CannotCreateIssuesDir { cause }),
        Ok(_) => r.0 == (Session::InitSeed { settings: s }) && is_write(
            r.1,
            path_join(path_join(s.path@, "issues"@), ".gitkeep"@),
            Seq::empty(),
        ),
    }
}

fn on_init_mkdir(s: Settings, result: Result<(), String>) -> (r: (Session, Request))
    ensures
        init_mkdir_next(s, result, r),
{
    match result {
        Err(cause) => (Session::Finished, Request::Finish { result: Err(IssueError::CannotCreateIssuesDir { cause }) }),
        Ok(_) => {
            let dir = join_path(s.path.as_str(), "issues");
            let file = join_path(dir.as_str(), ".gitkeep");
            (Session::InitSeed { settings: s }, Request::WriteFile { path: file, contents: String::new() })
        },
    }
}

/// `.gitkeep` written: commit it.
pub open spec fn init_seed_next(s: Settings, result: Result<(), String>, r: (Session, Request)) -> bool {
    match result {
        Err(cause) => ends_with_error(r, IssueError::CannotSeedIssuesDir { cause }),
        Ok(_) => {
            &&& r.0 matches Session::InitCommit {
                settings: s2,
                init_commit: Commit::Add { path, files, message },
            } && s2 == s && path@ == s.path@ && strs(files@) == seq!["issues/.gitkeep"@] && message@
                == "Initialize git-issues"@
            &&& is_git(r.1, add_args(s.path@, seq!["issues/.gitkeep"@]), false)
        },
    }
}

fn on_init_seed(s: Settings, result: Result<(), String>) -> (r: (Session, Request))
    ensures
        init_seed_next(s, result, r),
{
    match result {
        Err(cause) => (Session::Finished, Request::Finish { result: Err(IssueError::CannotSeedIssuesDir { cause }) }),
        Ok(_) => {
            let files = vec!["issues/.gitkeep".to_owned()];
            assert(strs(files@) =~= seq!["issues/.gitkeep"@]);
            let (c, req) = commit(s.path.as_str(), files, "Initialize git-issues");
            (Session::InitCommit { settings: s, init_commit: c }, req)
        },
    }
}

/// Committing the first file: then the new branch is reported.
pub open spec fn init_commit_next(s: Settings, c: Commit, reply: Reply, r: (Session, Request)) -> bool {
    exists|st: Step<Commit, Result<(), IssueError>>|
        #[trigger] commit_next(c, reply, st) && match st {
            Step::Next(c2, req) => r == (Session::InitCommit { settings: s, init_commit: c2 }, req),
            Step::Done(Err(e)) => ends_with_error(r, e),
            Step::Done(Ok(_)) => r.0 is Printing && is_print(r.1, branch_message("Created issues"@, s), true),
        }
}

fn on_init_commit(s: Settings, c: Commit, reply: Reply) -> (r: (Session, Request))
    requires
        reply is Git,
    ensures
        init_commit_next(s, c, reply, r),
{
    let ghost g = c;
    let st = c.step(reply);
    assert(commit_next(g, reply, st));
    match st {
        Step::Next(c2, req) => (Session::InitCommit { settings: s, init_commit: c2 }, req),
        Step::Done(Err(e)) => (Session::Finished, Request::Finish { result: Err(e) }),
        Step::Done(Ok(_)) => {
            let mut text = "Created issues".to_owned();
            push_str(&mut text, " branch '");
            push_str(&mut text, s.branch.as_str());
            push_str(&mut text, "' at ");
            push_str(&mut text, s.path.as_str());
            (Session::Printing, Request::Print { text, newline: true })
        },
    }
}

// ---------------------------------------------------------------------------
// Driving a session
// ---------------------------------------------------------------------------

impl Editor {
    /// Whether `reply` answers what this state waits for.
    pub fn accepts_reply(&self, reply: &Reply) -> (b: bool)
        ensures
            b == self.accepts(*reply),
    {
        match self {
            Editor::Var { .. } => matches!(reply, Reply::Git { .. }),
            Editor::Run { .. } => matches!(reply, Reply::Editor { .. }),
        }
    }
}

impl Syncing {
    /// Whether `reply` answers what this state waits for.
    pub fn accepts_reply(&self, reply: &Reply) -> (b: bool)
        ensures
            b == self.accepts(*reply),
    {
        match self {
            Syncing::Report => matches!(reply, Reply::Done { .. }),
            _ => matches!(reply, Reply::Git { .. }),
        }
    }
}

impl Session {
    /// Whether `reply` answers what this state waits for (a finished session
    /// waits for nothing).
    pub open spec fn accepts(self, reply: Reply) -> bool {
        match self {
            Session::Resolving { .. } => reply is Git,
            Session::Worktree { .. } => reply is Exists,
            Session::Issue { .. } => reply is Exists,
            Session::ShowRead { .. } => reply is Read,
            Session::StatusRun { .. } => reply is Git,
            Session::NewWrite { .. } => reply is Done,
            Session::NewEditor { editor, .. } => editor.accepts(reply),
            Session::EditEditor { editor, .. } => editor.accepts(reply),
            Session::Reading { .. } => reply is Read,
            Session::Writing { .. } => reply is Done,
            Session::Committing { .. } => reply is Git,
            Session::Reporting { .. } => reply is Done,
            Session::SyncRun { sync_stage } => sync_stage.accepts(reply),
            Session::ListDir { .. } => reply is Dir,
            Session::ListRead { names, next, .. } => reply is Read && 1 <= next <= names@.len(),
            Session::IdsDir { .. } => reply is Dir,
            Session::IdsRead { names, next, .. } => reply is Read && 1 <= next <= names@.len(),
            Session::ListPrint { .. } => reply is Done,
            Session::InitVersion { .. } => reply is Git,
            Session::InitRoot { .. } => reply is Git,
            Session::InitSkillCheck { .. } => reply is Exists,
            Session::InitSkillDir { .. } => reply is Done,
            Session::InitSkillWrite { .. } => reply is Done,
            Session::InitSkillReport { .. } => reply is Done,
            Session::InitSetBranch { .. } => reply is Git,
            Session::InitCwd { .. } => reply is CurrentDir,
            Session::InitSetPath { .. } => reply is Git,
            Session::InitResolving { .. } => reply is Git,
            Session::InitCheck { .. } => reply is Exists,
            Session::InitPathExists { .. } => reply is Exists,
            Session::InitFetch { .. } => reply is Git,
            Session::InitAttach { .. } => reply is Git,
            Session::InitOrphan { .. } => reply is Git,
            Session::InitMkdir { .. } => reply is Done,
            Session::InitSeed { .. } => reply is Done,
            Session::InitCommit { .. } => reply is Git,
            Session::Printing => reply is Done,
            Session::Finished => false,
        }
    }

    /// Whether `reply` answers what this state waits for.
    pub fn accepts_reply(&self, reply: &Reply) -> (b: bool)
        ensures
            b == self.accepts(*reply),
    {
        match self {
            Session::Resolving { .. } => matches!(reply, Reply::Git { .. }),
            Session::Worktree { .. } => matches!(reply, Reply::Exists { .. }),
            Session::Issue { .. } => matches!(reply, Reply::Exists { .. }),
            Session::ShowRead { .. } => matches!(reply, Reply::Read { .. }),
            Session::StatusRun { .. } => matches!(reply, Reply::Git { .. }),
            Session::NewWrite { .. } => matches!(reply, Reply::Done { .. }),
            Session::NewEditor { editor, .. } => editor.accepts_reply(reply),
            Session::EditEditor { editor, .. } => editor.accepts_reply(reply),
            Session::Reading { .. } => matches!(reply, Reply::Read { .. }),
            Session::Writing { .. } => matches!(reply, Reply::Done { .. }),
            Session::Committing { .. } => matches!(reply, Reply::Git { .. }),
            Session::Reporting { .. } => matches!(reply, Reply::Done { .. }),
            Session::SyncRun { sync_stage } => sync_stage.accepts_reply(reply),
            Session::ListDir { .. } => matches!(reply, Reply::Dir { .. }),
            Session::ListRead { names, next, .. } => matches!(reply, Reply::Read { .. }) && 1 <= *next
                && *next <= names.len(),
            Session::IdsDir { .. } => matches!(reply, Reply::Dir { .. }),
            Session::IdsRead { names, next, .. } => matches!(reply, Reply::Read { .. }) && 1 <= *next
                && *next <= names.len(),
            Session::ListPrint { .. } => matches!(reply, Reply::Done { .. }),
            Session::InitVersion { .. } => matches!(reply, Reply::Git { .. }),
            Session::InitRoot { .. } => matches!(reply, Reply::Git { .. }),
            Session::InitSkillCheck { .. } => matches!(reply, Reply::Exists { .. }),
            Session::InitSkillDir { .. } => matches!(reply, Reply::Done { .. }),
            Session::InitSkillWrite { .. } => matches!(reply, Reply::Done { .. }),
            Session::InitSkillReport { .. } => matches!(reply, Reply::Done { .. }),
            Session::InitSetBranch { .. } => matches!(reply, Reply::Git { .. }),
            Session::InitCwd { .. } => matches!(reply, Reply::CurrentDir { .. }),
            Session::InitSetPath { .. } => matches!(reply, Reply::Git { .. }),
            Session::InitResolving { .. } => matches!(reply, Reply::Git { .. }),
            Session::InitCheck { .. } => matches!(reply, Reply::Exists { .. }),
            Session::InitPathExists { .. } => matches!(reply, Reply::Exists { .. }),
            Session::InitFetch { .. } => matches!(reply, Reply::Git { .. }),
            Session::InitAttach { .. } => matches!(reply, Reply::Git { .. }),
            Session::InitOrphan { .. } => matches!(reply, Reply::Git { .. }),
            Session::InitMkdir { .. } => matches!(reply, Reply::Done { .. }),
            Session::InitSeed { .. } => matches!(reply, Reply::Done { .. }),
            Session::InitCommit { .. } => matches!(reply, Reply::Git { .. }),
            Session::Printing => matches!(reply, Reply::Done { .. }),
            Session::Finished => false,
        }
    }

    /// What one step does from this state, given the reply: each state's own
    /// transition.
    pub open spec fn next(self, reply: Reply, r: (Session, Request)) -> bool {
        match self {
            Session::Resolving { cmd, stage } => resolving_next(cmd, stage, reply, r),
            Session::Worktree { cmd, settings } => worktree_next(cmd, settings, reply->Exists_found, r),
            Session::Issue { cmd, settings, file } => issue_next(cmd, settings, file, reply->Exists_found, r),
            Session::ShowRead { file } => show_read_next(file, reply->Read_text, r),
            Session::StatusRun { path } => status_run_next(path, reply->Git_out, r),
            Session::NewWrite { settings, id, rel, file, sync } => new_write_next(
                settings,
                id,
                rel,
                file,
                sync,
                reply->Done_result,
                r,
            ),
            Session::NewEditor { settings, id, rel, sync, editor } => new_editor_next(
                settings,
                id,
                rel,
                sync,
                editor,
                reply,
                r,
            ),
            Session::EditEditor { settings, id, file, sync, editor } => edit_editor_next(
                settings,
                id,
                file,
                sync,
                editor,
                reply,
                r,
            ),
            Session::Reading { settings, id, file, sync, status } => reading_next(
                settings,
                id,
                file,
                sync,
                status,
                reply->Read_text,
                r,
            ),
            Session::Writing { settings, id, file, sync, status } => writing_next(
                settings,
                id,
                file,
                sync,
                status,
                reply->Done_result,
                r,
            ),
            Session::Committing { settings, sync, report, commit } => committing_next(
                settings,
                sync,
                report,
                commit,
                reply,
                r,
            ),
            Session::Reporting { settings, sync } => reporting_next(settings, sync, r),
            Session::SyncRun { sync_stage } => sync_run_next(sync_stage, reply, r),
            Session::ListDir { want_status, want_label, dir } => list_dir_next(
                want_status,
                want_label,
                dir,
                reply->Dir_names,
                r,
            ),
            Session::ListRead { want_status, want_label, dir, names, next, rows } => list_read_next(
                want_status,
                want_label,
                dir,
                names,
                next,
                rows,
                reply->Read_text,
                r,
            ),
            Session::IdsDir { dir } => ids_dir_next(dir, reply->Dir_names, r),
            Session::IdsRead { dir, names, next, ids } => ids_read_next(
                dir,
                names,
                next,
                ids,
                reply->Read_text,
                r,
            ),
            Session::ListPrint { lines, next } => list_print_next(lines, next, r),
            Session::InitVersion { new_branch, new_path, skill } => init_version_next(
                new_branch,
                new_path,
                skill,
                reply,
                r,
            ),
            Session::InitRoot { new_branch, new_path, skill } => init_root_next(
                new_branch,
                new_path,
                skill,
                reply,
                r,
            ),
            Session::InitSkillCheck { new_branch, new_path, dir, file, skill } => init_skill_check_next(
                new_branch,
                new_path,
                dir,
                file,
                skill,
                reply->Exists_found,
                r,
            ),
            Session::InitSkillDir { new_branch, new_path, dir, file, skill } => init_skill_dir_next(
                new_branch,
                new_path,
                dir,
                file,
                skill,
                reply->Done_result,
                r,
            ),
            Session::InitSkillWrite { new_branch, new_path, file, report } => init_skill_write_next(
                new_branch,
                new_path,
                file,
                report,
                reply->Done_result,
                r,
            ),
            Session::InitSkillReport { new_branch, new_path } => after_skill_next(new_branch, new_path, r),
            Session::InitSetBranch { value, new_path } => init_set_next(
                "issues.branch"@,
                value@,
                reply,
                |r2: (Session, Request)| after_branch_next(new_path, r2),
                r,
            ),
            Session::InitCwd { rel } => init_cwd_next(rel, reply->CurrentDir_dir, r),
            Session::InitSetPath { value } => init_set_next(
                "issues.worktreepath"@,
                value@,
                reply,
                |r2: (Session, Request)| r2.0 == (Session::InitResolving { init_stage: Resolve::Root })
                    && is_git(r2.1, crate::config::root_args(), false),
                r,
            ),
            Session::InitResolving { init_stage } => init_resolving_next(init_stage, reply, r),
            Session::InitCheck { settings } => init_check_next(settings, reply->Exists_found, r),
            Session::InitPathExists { settings } => init_path_exists_next(settings, reply->Exists_found, r),
            Session::InitFetch { settings } => attach_start_next(settings, r),
            Session::InitAttach { settings } => init_attach_next(settings, reply->Git_out, r),
            Session::InitOrphan { settings, attach_err } => init_orphan_next(
                settings,
                attach_err,
                reply->Git_out,
                r,
            ),
            Session::InitMkdir { settings } => init_mkdir_next(settings, reply->Done_result, r),
            Session::InitSeed { settings } => init_seed_next(settings, reply->Done_result, r),
            Session::InitCommit { settings, init_commit } => init_commit_next(settings, init_commit, reply, r),
            Session::Printing => ends_ok(r),
            Session::Finished => false,
        }
    }

    /// One step of the subcommand: from this state and the reply to the last
    /// request, the next state and what to do.
    pub fn step(self, reply: Reply) -> (r: (Session, Request))
        requires
            self.accepts(reply),
        ensures
            self.next(reply, r),
    {
        match self {
            Session::Resolving { cmd, stage } => on_resolving(cmd, stage, reply),
            Session::Worktree { cmd, settings } => match reply {
                Reply::Exists { found } => ensure_worktree(cmd, settings, found),
                _ => (Session::Finished, Request::Finish { result: Ok(()) }),
            },
            Session::Issue { cmd, settings, file } => match reply {
                Reply::Exists { found } => existing_issue(cmd, settings, file, found),
                _ => (Session::Finished, Request::Finish { result: Ok(()) }),
            },
            Session::ShowRead { file } => match reply {
                Reply::Read { text } => on_show_read(file, text),
                _ => (Session::Finished, Request::Finish { result: Ok(()) }),
            },
            Session::StatusRun { path } => match reply {
                Reply::Git { out } => on_status_run(path, out),
                _ => (Session::Finished, Request::Finish { result: Ok(()) }),
            },
            Session::NewWrite { settings, id, rel, file, sync } => match reply {
                Reply::Done { result } => on_new_write(settings, id, rel, file, sync, result),
                _ => (Session::Finished, Request::Finish { result: Ok(()) }),
            },
            Session::NewEditor { settings, id, rel, sync, editor } => on_new_editor(
                settings,
                id,
                rel,
                sync,
                editor,
                reply,
            ),
            Session::EditEditor { settings, id, file, sync, editor } => on_edit_editor(
                settings,
                id,
                file,
                sync,
                editor,
                reply,
            ),
            Session::Reading { settings, id, file, sync, status } => match reply {
                Reply::Read { text } => on_reading(settings, id, file, sync, status, text),
                _ => (Session::Finished, Request::Finish { result: Ok(()) }),
            },
            Session::Writing { settings, id, file, sync, status } => match reply {
                Reply::Done { result } => on_writing(settings, id, file, sync, status, result),
                _ => (Session::Finished, Request::Finish { result: Ok(()) }),
            },
            Session::Committing { settings, sync, report, commit } => on_committing(
                settings,
                sync,
                report,
                commit,
                reply,
            ),
            Session::Reporting { settings, sync } => on_reporting(settings, sync),
            Session::SyncRun { sync_stage } => on_sync_run(sync_stage, reply),
            Session::ListDir { want_status, want_label, dir } => match reply {
                Reply::Dir { names } => on_list_dir(want_status, want_label, dir, names),
                _ => (Session::Finished, Request::Finish { result: Ok(()) }),
            },
            Session::ListRead { want_status, want_label, dir, names, next, rows } => match reply {
                Reply::Read { text } => on_list_read(want_status, want_label, dir, names, next, rows, text),
                _ => (Session::Finished, Request::Finish { result: Ok(()) }),
            },
            Session::IdsDir { dir } => match reply {
                Reply::Dir { names } => on_ids_dir(dir, names),
                _ => (Session::Finished, Request::Finish { result: Ok(()) }),
            },
            Session::IdsRead { dir, names, next, ids } => match reply {
                Reply::Read { text } => on_ids_read(dir, names, next, ids, text),
                _ => (Session::Finished, Request::Finish { result: Ok(()) }),
            },
            Session::ListPrint { lines, next } => on_list_print(lines, next),
            Session::InitVersion { new_branch, new_path, skill } => match reply {
                Reply::Git { out } => on_init_version(new_branch, new_path, skill, out),
                _ => (Session::Finished, Request::Finish { result: Ok(()) }),
            },
            Session::InitRoot { new_branch, new_path, skill } => match reply {
                Reply::Git { out } => on_init_root(new_branch, new_path, skill, out),
                _ => (Session::Finished, Request::Finish { result: Ok(()) }),
            },
            Session::InitSkillCheck { new_branch, new_path, dir, file, skill } => match reply {
                Reply::Exists { found } => on_init_skill_check(new_branch, new_path, dir, file, skill, found),
                _ => (Session::Finished, Request::Finish { result: Ok(()) }),
            },
            Session::InitSkillDir { new_branch, new_path, dir, file, skill } => match reply {
                Reply::Done { result } => on_init_skill_dir(new_branch, new_path, dir, file, skill, result),
                _ => (Session::Finished, Request::Finish { result: Ok(()) }),
            },
            Session::InitSkillWrite { new_branch, new_path, file, report } => match reply {
                Reply::Done { result } => on_init_skill_write(new_branch, new_path, file, report, result),
                _ => (Session::Finished, Request::Finish { result: Ok(()) }),
            },
            Session::InitSkillReport { new_branch, new_path } => after_skill(new_branch, new_path),
            Session::InitSetBranch { value, new_path } => match reply {
                Reply::Git { out } => on_init_set_branch(value, new_path, out),
                _ => (Session::Finished, Request::Finish { result: Ok(()) }),
            },
            Session::InitCwd { rel } => match reply {
                Reply::CurrentDir { dir } => on_init_cwd(rel, dir),
                _ => (Session::Finished, Request::Finish { result: Ok(()) }),
            },
            Session::InitSetPath { value } => match reply {
                Reply::Git { out } => on_init_set_path(value, out),
                _ => (Session::Finished, Request::Finish { result: Ok(()) }),
            },
            Session::InitResolving { init_stage } => on_init_resolving(init_stage, reply),
            Session::InitCheck { settings } => match reply {
                Reply::Exists { found } => on_init_check(settings, found),
                _ => (Session::Finished, Request::Finish { result: Ok(()) }),
            },
            Session::InitPathExists { settings } => match reply {
                Reply::Exists { found } => on_init_path_exists(settings, found),
                _ => (Session::Finished, Request::Finish { result: Ok(()) }),
            },
            Session::InitFetch { settings } => start_attach(settings),
            Session::InitAttach { settings } => match reply {
                Reply::Git { out } => on_init_attach(settings, out),
                _ => (Session::Finished, Request::Finish { result: Ok(()) }),
            },
            Session::InitOrphan { settings, attach_err } => match reply {
                Reply::Git { out } => on_init_orphan(settings, attach_err, out),
                _ => (Session::Finished, Request::Finish { result: Ok(()) }),
            },
            Session::InitMkdir { settings } => match reply {
                Reply::Done { result } => on_init_mkdir(settings, result),
                _ => (Session::Finished, Request::Finish { result: Ok(()) }),
            },
            Session::InitSeed { settings } => match reply {
                Reply::Done { result } => on_init_seed(settings, result),
                _ => (Session::Finished, Request::Finish { result: Ok(()) }),
            },
            Session::InitCommit { settings, init_commit } => on_init_commit(settings, init_commit, reply),
            Session::Printing => (Session::Finished, Request::Finish { result: Ok(()) }),
            Session::Finished => (Session::Finished, Request::Finish { result: Ok(()) }),
        }
    }
}

// ---------------------------------------------------------------------------
// The conversation as a whole
// ---------------------------------------------------------------------------

/// A step leaves the conversation in order: the subcommand is over exactly
/// when the request is to finish, and otherwise the new state accepts every
/// reply of the kind its request asks for.
pub open spec fn keeps_protocol(r: (Session, Request)) -> bool {
    &&& (r.0 is Finished <==> r.1 is Finish)
    &&& r.0 !is Finished ==> forall|reply: Reply| #[trigger] answers(r.1, reply) ==> r.0.accepts(reply)
}

/// The first issue file at or after `i` lies in range.
proof fn lemma_next_md_in_range(names: Seq<Seq<char>>, i: int)
    ensures
        next_md(names, i) matches Some(j) ==> 0 <= i <= j < names.len(),
    decreases names.len() - i,
{
    if 0 <= i < names.len() && !is_md(names[i]) {
        lemma_next_md_in_range(names, i + 1);
    }
}

/// Every step of a subcommand keeps the conversation in order: it ends the
/// subcommand exactly when it asks to finish, and otherwise whatever answer
/// of the kind it asks for is one the new state accepts.
#[verifier::rlimit(40)]
pub proof fn law_step_keeps_protocol(s: Session, reply: Reply, r: (Session, Request))
    requires
        s.accepts(reply),
        s.next(reply, r),
    ensures
        keeps_protocol(r),
{
    match s {
        Session::ListDir { want_status, want_label, dir } => {
            if let Reply::Dir { names: Ok(n) } = reply {
                lemma_next_md_in_range(strs(n@), 0);
            }
        },
        Session::ListRead { want_status, want_label, dir, names, next, rows } => {
            lemma_next_md_in_range(strs(names@), next as int);
        },
        Session::IdsDir { dir } => {
            if let Reply::Dir { names: Ok(n) } = reply {
                lemma_next_md_in_range(strs(n@), 0);
            }
        },
        Session::IdsRead { dir, names, next, ids } => {
            lemma_next_md_in_range(strs(names@), next as int);
        },
        _ => {},
    }
}

/// Running `init` again where the worktree is already set up touches
/// nothing: once the settings are resolved and the worktree's `.git` is
/// found, the subcommand only reports the branch and path, and then ends
/// successfully, with no fetch and no `worktree add`.
pub proof fn law_init_on_existing_worktree(
    settings: Settings,
    r1: (Session, Request),
    reply: Reply,
    r2: (Session, Request),
)
    requires
        (Session::InitCheck { settings }).next(Reply::Exists { found: true }, r1),
        r1.0.accepts(reply),
        r1.0.next(reply, r2),
    ensures
        is_print(r1.1, branch_message("Already initialized:"@, settings), true),
        r2.0 is Finished,
        is_finish_ok(r2.1),
{
}

/// A git run that fetches or adds a worktree: the runs by which `init`
/// changes the issues branch or its worktree.
pub open spec fn fetches_or_adds_worktree(req: Request) -> bool {
    req matches Request::Git { args, .. } && strs(args@).len() > 0 && (strs(args@)[0] == "fetch"@
        || strs(args@)[0] == "worktree"@)
}

/// `init`'s states before the worktree check: git's version, the root, the
/// skill, the config writes and resolving the settings.
pub open spec fn init_before_check(s: Session) -> bool {
    ||| s is InitVersion
    ||| s is InitRoot
    ||| s is InitSkillCheck
    ||| s is InitSkillDir
    ||| s is InitSkillWrite
    ||| s is InitSkillReport
    ||| s is InitSetBranch
    ||| s is InitCwd
    ||| s is InitSetPath
    ||| s is InitResolving
}

/// `init`'s states after the worktree check.
pub open spec fn init_after_check(s: Session) -> bool {
    ||| s is InitPathExists
    ||| s is InitFetch
    ||| s is InitAttach
    ||| s is InitOrphan
    ||| s is InitMkdir
    ||| s is InitSeed
    ||| s is InitCommit
    ||| s is Printing
    ||| s is Finished
}

/// How far `init` has got: before the worktree check, at it, or after it.
pub open spec fn init_phase(s: Session) -> int {
    if init_before_check(s) {
        0
    } else if s is InitCheck {
        1
    } else {
        2
    }
}

/// Step `j` of a run: state `j`, answered with reply `j`, steps to state and
/// request `j + 1`.
pub open spec fn step_taken(states: Seq<Session>, reqs: Seq<Request>, replies: Seq<Reply>, j: int) -> bool {
    states[j].accepts(replies[j]) && states[j].next(replies[j], (states[j + 1], reqs[j + 1]))
}

/// A run of a subcommand: its states, the requests made on entering each,
/// and the replies that answered all but the last, each step as `step` takes
/// it.
pub open spec fn is_run(states: Seq<Session>, reqs: Seq<Request>, replies: Seq<Reply>) -> bool {
    &&& states.len() == reqs.len()
    &&& replies.len() + 1 == states.len()
    &&& forall|j: int| 0 <= j < replies.len() ==> #[trigger] step_taken(states, reqs, replies, j)
}

/// One step of `init` stays within `init`, never goes back, leaves the
/// worktree check at once, and fetches or adds a worktree only after it.
proof fn lemma_init_step(s: Session, reply: Reply, r: (Session, Request))
    requires
        init_before_check(s) || s is InitCheck || init_after_check(s),
        s.accepts(reply),
        s.next(reply, r),
    ensures
        init_before_check(r.0) || r.0 is InitCheck || init_after_check(r.0),
        init_phase(s) <= init_phase(r.0),
        s is InitCheck ==> init_phase(r.0) == 2,
        init_before_check(s) ==> !fetches_or_adds_worktree(r.1),
{
    reveal_strlit("fetch");
    reveal_strlit("worktree");
    reveal_strlit("--version");
    reveal_strlit("rev-parse");
    reveal_strlit("config");
    reveal_strlit("remote");
    assert("fetch"@[0] == 'f' && "worktree"@[0] == 'w');
    assert("--version"@[0] == '-' && "rev-parse"@[0] == 'r' && "config"@[0] == 'c' && "remote"@[0] == 'r');
    match s {
        Session::InitCommit { settings, init_commit } => {},
        _ => {},
    }
}

/// Running `init` again where the worktree is already set up changes
/// nothing but the config and the skill: in any run of `init` whose
/// worktree check finds the worktree's `.git`, no request fetches or adds a
/// worktree, the check is followed only by the report of the branch and
/// path, and the run then ends successfully.
///
/// `states`, `reqs` and `replies` are the run: it starts as `init` starts,
/// and each state, answered with its reply, steps to the next state and
/// request; the worktree check is step `k`.
pub proof fn law_init_rerun_changes_nothing(
    new_branch: Option<String>,
    new_path: Option<String>,
    skill: Option<Skill>,
    states: Seq<Session>,
    reqs: Seq<Request>,
    replies: Seq<Reply>,
    k: int,
)
    requires
        is_run(states, reqs, replies),
        states[0] == (Session::InitVersion { new_branch, new_path, skill }),
        is_git(reqs[0], version_args(), false),
        0 <= k < replies.len(),
        states[k] is InitCheck,
        replies[k] == (Reply::Exists { found: true }),
    ensures
        forall|i: int| 0 <= i < reqs.len() ==> !fetches_or_adds_worktree(#[trigger] reqs[i]),
        is_print(reqs[k + 1], branch_message("Already initialized:"@, states[k]->InitCheck_settings), true),
        states.len() <= k + 3,
        states.len() == k + 3 ==> states[k + 2] is Finished && is_finish_ok(reqs[k + 2]),
{
    reveal_strlit("fetch");
    reveal_strlit("worktree");
    reveal_strlit("--version");
    assert("fetch"@[0] == 'f' && "worktree"@[0] == 'w' && "--version"@[0] == '-');
    assert(!fetches_or_adds_worktree(reqs[0]));
    // Every state is one of `init`'s, and the phase never goes down.
    assert forall|i: int| 0 <= i < states.len() implies (init_before_check(#[trigger] states[i])
        || states[i] is InitCheck || init_after_check(states[i])) && init_phase(states[0]) <= init_phase(
        states[i],
    ) by {
        lemma_init_run_phases(states, reqs, replies, i);
    }
    // Before the check every state is before it: an earlier check would have
    // been left for good.
    assert forall|j: int| 0 <= j < k implies init_before_check(#[trigger] states[j]) by {
        if !init_before_check(states[j]) {
            assert(step_taken(states, reqs, replies, j));
            lemma_init_step(states[j], replies[j], (states[j + 1], reqs[j + 1]));
            lemma_init_phase_rises(states, reqs, replies, j + 1, k);
        }
    }
    assert forall|i: int| 0 <= i < reqs.len() implies !fetches_or_adds_worktree(#[trigger] reqs[i]) by {
        if 0 < i <= k {
            assert(step_taken(states, reqs, replies, i - 1));
            lemma_init_step(states[i - 1], replies[i - 1], (states[i], reqs[i]));
        } else if i > k {
            assert(step_taken(states, reqs, replies, k));
            if i > k + 1 {
                assert(step_taken(states, reqs, replies, k + 1));
                if i > k + 2 {
                    assert(step_taken(states, reqs, replies, k + 2));
                }
            }
        }
    }
    assert(step_taken(states, reqs, replies, k));
    if states.len() > k + 2 {
        assert(step_taken(states, reqs, replies, k + 1));
        assert(states[k + 1] is Printing);
        if states.len() > k + 3 {
            assert(step_taken(states, reqs, replies, k + 2));
        }
    }
}

/// Along a run of `init`, every state is one of `init`'s and the phase
/// never goes down.
proof fn lemma_init_run_phases(states: Seq<Session>, reqs: Seq<Request>, replies: Seq<Reply>, i: int)
    requires
        is_run(states, reqs, replies),
        init_before_check(states[0]),
        0 <= i < states.len(),
    ensures
        init_before_check(states[i]) || states[i] is InitCheck || init_after_check(states[i]),
        init_phase(states[0]) <= init_phase(states[i]),
    decreases i,
{
    if i > 0 {
        lemma_init_run_phases(states, reqs, replies, i - 1);
        assert(step_taken(states, reqs, replies, i - 1));
        lemma_init_step(states[i - 1], replies[i - 1], (states[i], reqs[i]));
    }
}

/// Once a run of `init` is past the worktree check it stays past it.
proof fn lemma_init_phase_rises(
    states: Seq<Session>,
    reqs: Seq<Request>,
    replies: Seq<Reply>,
    from: int,
    to: int,
)
    requires
        is_run(states, reqs, replies),
        0 <= from <= to < states.len(),
        init_after_check(states[from]),
    ensures
        init_after_check(states[to]),
    decreases to - from,
{
    if from < to {
        assert(step_taken(states, reqs, replies, from));
        lemma_init_step(states[from], replies[from], (states[from + 1], reqs[from + 1]));
        lemma_init_phase_rises(states, reqs, replies, from + 1, to);
    }
}

/// When `init` can attach a worktree to an existing issues branch (as on a
/// second clone), it says so and is done: a successful
/// `worktree add <path> <branch>` is followed by the report
/// "Attached existing branch '<branch>' at <path>" and then a successful
/// end, with no orphan branch created.
pub proof fn law_init_attach_reports(
    s: Settings,
    o: GitOutput,
    r1: (Session, Request),
    reply: Reply,
    r2: (Session, Request),
)
    requires
        (Session::InitAttach { settings: s }).next(Reply::Git { out: Ok(o) }, r1),
        o.success,
        r1.0.accepts(reply),
        r1.0.next(reply, r2),
    ensures
        r1.1 matches Request::Print { text, newline } && newline && text@ == "Attached existing branch '"@
            + s.branch@ + "' at "@ + s.path@,
        !fetches_or_adds_worktree(r1.1),
        r2.0 is Finished,
        is_finish_ok(r2.1),
{
    reveal_strlit("Attached existing branch '");
    reveal_strlit("Attached existing");
    reveal_strlit(" branch '");
    reveal_strlit("' at ");
    assert("Attached existing"@ + " branch '"@ =~= "Attached existing branch '"@);
    assert(branch_message("Attached existing"@, s) =~= "Attached existing branch '"@ + s.branch@ + "' at "@
        + s.path@);
}

/// A merge that fails stops the sync: when the merge of what was fetched
/// runs and fails, `sync` ends with the merge-conflict error and asks for no
/// push.
pub proof fn law_sync_stops_on_merge_conflict(
    path: String,
    remote: String,
    branch: String,
    o: GitOutput,
    r: (Session, Request),
)
    requires
        (Session::SyncRun { sync_stage: Syncing::Merge { path, remote, branch } }).next(
            Reply::Git { out: Ok(o) },
            r,
        ),
        !o.success,
    ensures
        r.0 is Finished,
        r.1 == (Request::Finish { result: Err(IssueError::MergeConflict) }),
{
}

/// The file `new` writes names the issue it is for: its path is
/// `<worktree>/issues/<id>.md` and its text opens with the front-matter fence
/// and the line `id: <id>`, where `<id>` is the title's slug, a dash and four
/// small letters or digits.
pub proof fn law_new_file_holds_its_id(
    title: Vec<String>,
    sync: bool,
    s: Settings,
    r: (Session, Request),
)
    requires
        (Session::Worktree { cmd: Cmd::New { title, sync }, settings: s }).next(
            Reply::Exists { found: true },
            r,
        ),
        r.1 is WriteFile,
    ensures
        exists|suffix: Seq<char>|
            #[trigger] crate::util::is_suffix(suffix) && {
                let id = crate::util::slug_spec(trim(command_line(strs(title@)))) + seq!['-'] + suffix;
                let head = seq!['-', '-', '-', '\n', 'i', 'd', ':', ' '] + id + seq!['\n'];
                &&& r.1->WriteFile_path@ == path_join(s.path@, "issues/"@ + id + ".md"@)
                &&& r.1->WriteFile_contents@.len() >= head.len()
                &&& r.1->WriteFile_contents@.take(head.len() as int) == head
            },
{
    let t = new_title(title);
    let (suffix, now) = choose|suffix: Seq<char>, now: Seq<char>|
        #![trigger crate::util::is_suffix(suffix), crate::util::is_utc_timestamp(now)]
        crate::util::is_suffix(suffix) && crate::util::is_utc_timestamp(now) && {
            let id = crate::util::id_spec(t, suffix);
            let rel = "issues/"@ + id + ".md"@;
            let file = path_join(s.path@, rel);
            &&& r.0 matches Session::NewWrite { settings: s2, id: i, rel: rl, file: f, sync: sy }
                && s2 == s && i@ == id && rl@ == rel && f@ == file && sy == sync
            &&& crate::request::is_write(
                r.1,
                file,
                crate::frontmatter::render_spec(new_fields(id, t, now), Seq::<char>::empty()),
            )
        };
    let id = crate::util::id_spec(t, suffix);
    let fields = new_fields(id, t, now);
    reveal_strlit("id");
    lemma_render_fields_first(fields);
    let head = seq!['-', '-', '-', '\n', 'i', 'd', ':', ' '] + id + seq!['\n'];
    let contents = crate::frontmatter::render_spec(fields, Seq::<char>::empty());
    let first = crate::frontmatter::field_line(fields[0]) + seq!['\n'];
    assert(crate::frontmatter::field_line(fields[0]) =~= seq!['i', 'd', ':', ' '] + id);
    assert(head =~= seq!['-', '-', '-', '\n'] + first);
    assert(contents.take(head.len() as int) =~= head);
}

/// The rendered fields open with the first field's line.
proof fn lemma_render_fields_first(fields: crate::frontmatter::FieldsModel)
    requires
        fields.len() > 0,
    ensures
        crate::frontmatter::render_fields(fields).len() >= crate::frontmatter::field_line(fields[0]).len()
            + 1,
        crate::frontmatter::render_fields(fields).take(
            crate::frontmatter::field_line(fields[0]).len() + 1int,
        ) == crate::frontmatter::field_line(fields[0]) + seq!['\n'],
    decreases fields.len(),
{
    let first = crate::frontmatter::field_line(fields[0]) + seq!['\n'];
    if fields.len() == 1 {
        assert(fields.drop_last().len() == 0);
        assert(crate::frontmatter::render_fields(fields.drop_last()) == Seq::<char>::empty());
        assert(fields.last() == fields[0]);
        assert(crate::frontmatter::render_fields(fields) == crate::frontmatter::render_fields(
            fields.drop_last(),
        ) + crate::frontmatter::field_line(fields.last()) + seq!['\n']);
        assert(crate::frontmatter::render_fields(fields) =~= first);
    } else {
        lemma_render_fields_first(fields.drop_last());
        assert(fields.drop_last()[0] == fields[0]);
        let rest = crate::frontmatter::render_fields(fields.drop_last());
        assert(crate::frontmatter::render_fields(fields) == rest + crate::frontmatter::field_line(
            fields.last(),
        ) + seq!['\n']);
        assert(crate::frontmatter::render_fields(fields).take(first.len() as int) =~= rest.take(
            first.len() as int,
        ));
    }
}

/// Updating an issue (`edit`, `close`, `reopen`) stamps it: the document
/// written back to the issue's file has the current UTC time as `updated`,
/// the new status when one is given and otherwise the status it had, and
/// every other field and the body as they were.
pub proof fn law_update_stamps_the_issue(
    s: Settings,
    id: String,
    file: String,
    sync: bool,
    status: Option<String>,
    raw: String,
    r: (Session, Request),
)
    requires
        (Session::Reading { settings: s, id, file, sync, status }).next(Reply::Read { text: Ok(raw) }, r),
    ensures
        exists|now: Seq<char>, fields: crate::frontmatter::FieldsModel|
            #![trigger crate::util::is_utc_timestamp(now), crate::frontmatter::lookup(fields, "updated"@)]
            {
                let old = crate::frontmatter::parse_spec(raw@);
                &&& crate::util::is_utc_timestamp(now)
                &&& crate::request::is_write(r.1, file@, crate::frontmatter::render_spec(fields, old.1))
                &&& crate::frontmatter::lookup(fields, "updated"@) == Some(now)
                &&& crate::frontmatter::lookup(fields, "status"@) == match status {
                    Some(st) => Some(st@),
                    None => crate::frontmatter::lookup(old.0, "status"@),
                }
                &&& forall|k: Seq<char>|
                    k != "updated"@ && k != "status"@ ==> #[trigger] crate::frontmatter::lookup(fields, k)
                        == crate::frontmatter::lookup(old.0, k)
            },
{
    let old = crate::frontmatter::parse_spec(raw@);
    let now = choose|now: Seq<char>|
        #[trigger] crate::util::is_utc_timestamp(now) && {
            &&& r.0 == Session::Writing { settings: s, id, file, sync, status }
            &&& crate::request::is_write(
                r.1,
                file@,
                crate::frontmatter::render_spec(updated_fields(old.0, opt_model(status), now), old.1),
            )
        };
    let fields = updated_fields(old.0, opt_model(status), now);
    reveal_strlit("updated");
    reveal_strlit("status");
    assert("updated"@ != "status"@) by {
        assert("updated"@[0] != "status"@[0]);
    }
    crate::frontmatter::law_get_after_set(old.0, "updated"@, now);
    match status {
        Some(st) => {
            let f1 = crate::frontmatter::set_field(old.0, "status"@, st@);
            crate::frontmatter::law_get_after_set(f1, "updated"@, now);
            crate::frontmatter::law_get_after_set(old.0, "status"@, st@);
            crate::frontmatter::law_set_keeps_other_keys(f1, "updated"@, now, "status"@);
            assert forall|k: Seq<char>| k != "updated"@ && k != "status"@ implies #[trigger] crate::frontmatter::lookup(
                fields,
                k,
            ) == crate::frontmatter::lookup(old.0, k) by {
                crate::frontmatter::law_set_keeps_other_keys(f1, "updated"@, now, k);
                crate::frontmatter::law_set_keeps_other_keys(old.0, "status"@, st@, k);
            }
        },
        None => {
            crate::frontmatter::law_set_keeps_other_keys(old.0, "updated"@, now, "status"@);
            assert forall|k: Seq<char>| k != "updated"@ && k != "status"@ implies #[trigger] crate::frontmatter::lookup(
                fields,
                k,
            ) == crate::frontmatter::lookup(old.0, k) by {
                crate::frontmatter::law_set_keeps_other_keys(old.0, "updated"@, now, k);
            }
        },
    }
    assert(crate::frontmatter::lookup(fields, "updated"@) == Some(now));
}

/// `show` prints the issue's file exactly as it is on disk: the text read,
/// with no newline added, and then ends successfully.
pub proof fn law_show_prints_the_file(
    file: String,
    raw: String,
    r1: (Session, Request),
    reply: Reply,
    r2: (Session, Request),
)
    requires
        (Session::ShowRead { file }).next(Reply::Read { text: Ok(raw) }, r1),
        r1.0.accepts(reply),
        r1.0.next(reply, r2),
    ensures
        r1.1 matches Request::Print { text, newline } && text@ == raw@ && !newline,
        r2.0 is Finished,
        is_finish_ok(r2.1),
{
}

/// A fetch that brings nothing (it failed, as when the branch is not on the
/// remote yet, or could not run) is followed straight by the push
/// `git -C <path> push -u <remote> <branch>` on the terminal, with no merge;
/// a fetch that succeeded is followed by the merge
/// `git -C <path> merge --no-edit FETCH_HEAD` on the terminal.
pub proof fn law_sync_after_fetch(
    path: String,
    remote: String,
    branch: String,
    out: Result<GitOutput, String>,
    r: (Session, Request),
)
    requires
        (Session::SyncRun { sync_stage: Syncing::Fetch { path, remote, branch } }).next(
            Reply::Git { out },
            r,
        ),
    ensures
        out is Ok && out->Ok_0.success ==> is_git(
            r.1,
            seq!["-C"@, path@, "merge"@, "--no-edit"@, "FETCH_HEAD"@],
            true,
        ),
        !(out is Ok && out->Ok_0.success) ==> is_git(
            r.1,
            seq!["-C"@, path@, "push"@, "-u"@, remote@, branch@],
            true,
        ),
{
}

/// The push decides the sync: a push that fails ends it with the
/// push-failed error; one that succeeds is reported as
/// "Synced with <remote>/<branch>".
pub proof fn law_sync_push_outcome(
    path: String,
    remote: String,
    branch: String,
    o: GitOutput,
    r: (Session, Request),
)
    requires
        (Session::SyncRun { sync_stage: Syncing::Push { path, remote, branch } }).next(
            Reply::Git { out: Ok(o) },
            r,
        ),
    ensures
        !o.success ==> r.0 is Finished && r.1 == (Request::Finish { result: Err(IssueError::PushFailed) }),
        o.success ==> is_print(r.1, "Synced with "@ + remote@ + "/"@ + branch@, true),
{
}

/// What `new` writes is a fresh open issue: front matter holding, in order,
/// `id: <id>`, `title: <title>`, `status: open`, an empty `labels:`, and
/// `created:` and `updated:` both set to one current UTC timestamp, then an
/// empty body.
pub proof fn law_new_file_text(title: Vec<String>, sync: bool, s: Settings, r: (Session, Request))
    requires
        (Session::Worktree { cmd: Cmd::New { title, sync }, settings: s }).next(
            Reply::Exists { found: true },
            r,
        ),
        r.1 is WriteFile,
    ensures
        exists|suffix: Seq<char>, now: Seq<char>|
            #![trigger crate::util::is_suffix(suffix), crate::util::is_utc_timestamp(now)]
            crate::util::is_suffix(suffix) && crate::util::is_utc_timestamp(now) && {
                let t = trim(command_line(strs(title@)));
                let id = crate::util::slug_spec(t) + seq!['-'] + suffix;
                r.1->WriteFile_contents@ == "---\nid: "@ + id + "\ntitle: "@ + t
                    + "\nstatus: open\nlabels: \ncreated: "@ + now + "\nupdated: "@ + now
                    + "\n---\n\n\n"@
            },
{
    let t = new_title(title);
    let (suffix, now) = choose|suffix: Seq<char>, now: Seq<char>|
        #![trigger crate::util::is_suffix(suffix), crate::util::is_utc_timestamp(now)]
        crate::util::is_suffix(suffix) && crate::util::is_utc_timestamp(now) && {
            let id = crate::util::id_spec(t, suffix);
            let rel = "issues/"@ + id + ".md"@;
            let file = path_join(s.path@, rel);
            &&& r.0 matches Session::NewWrite { settings: s2, id: i, rel: rl, file: f, sync: sy }
                && s2 == s && i@ == id && rl@ == rel && f@ == file && sy == sync
            &&& crate::request::is_write(
                r.1,
                file,
                crate::frontmatter::render_spec(new_fields(id, t, now), Seq::<char>::empty()),
            )
        };
    lemma_new_fields_text(crate::util::id_spec(t, suffix), t, now);
}

/// Rendering a field list with one more field adds that field's line.
proof fn lemma_render_fields_push(f: crate::frontmatter::FieldsModel, p: (Seq<char>, Seq<char>))
    ensures
        crate::frontmatter::render_fields(f.push(p)) == crate::frontmatter::render_fields(f)
            + crate::frontmatter::field_line(p) + seq!['\n'],
{
    assert(f.push(p).drop_last() =~= f);
}

/// The text of a new issue's document.
proof fn lemma_new_fields_text(id: Seq<char>, t: Seq<char>, now: Seq<char>)
    ensures
        crate::frontmatter::render_spec(new_fields(id, t, now), Seq::<char>::empty()) == "---\nid: "@ + id
            + "\ntitle: "@ + t + "\nstatus: open\nlabels: \ncreated: "@ + now + "\nupdated: "@ + now
            + "\n---\n\n\n"@,
{
    reveal_strlit("id");
    reveal_strlit("title");
    reveal_strlit("status");
    reveal_strlit("open");
    reveal_strlit("labels");
    reveal_strlit("created");
    reveal_strlit("updated");
    reveal_strlit("---\nid: ");
    reveal_strlit("\ntitle: ");
    reveal_strlit("\nstatus: open\nlabels: \ncreated: ");
    reveal_strlit("\nupdated: ");
    reveal_strlit("\n---\n\n\n");
    let p0 = ("id"@, id);
    let p1 = ("title"@, t);
    let p2 = ("status"@, "open"@);
    let p3 = ("labels"@, Seq::<char>::empty());
    let p4 = ("created"@, now);
    let p5 = ("updated"@, now);
    let e = crate::frontmatter::FieldsModel::empty();
    assert(new_fields(id, t, now) =~= e.push(p0).push(p1).push(p2).push(p3).push(p4).push(p5));
    assert(crate::frontmatter::render_fields(e) == Seq::<char>::empty());
    lemma_render_fields_push(e, p0);
    lemma_render_fields_push(e.push(p0), p1);
    lemma_render_fields_push(e.push(p0).push(p1), p2);
    lemma_render_fields_push(e.push(p0).push(p1).push(p2), p3);
    lemma_render_fields_push(e.push(p0).push(p1).push(p2).push(p3), p4);
    lemma_render_fields_push(e.push(p0).push(p1).push(p2).push(p3).push(p4), p5);
    assert(crate::text::trim_end(Seq::<char>::empty()) == Seq::<char>::empty());
    assert(crate::frontmatter::render_spec(new_fields(id, t, now), Seq::<char>::empty()) =~= "---\nid: "@
        + id + "\ntitle: "@ + t + "\nstatus: open\nlabels: \ncreated: "@ + now + "\nupdated: "@
        + now + "\n---\n\n\n"@);
}

/// Once an updated issue (`edit`, `close`, `reopen`) is written, it is
/// committed in the worktree: first `git -C <worktree> add issues/<id>.md`
/// (a trailing `.md` of the ID given is not doubled), then, once that
/// succeeds, `git -C <worktree> commit -m "issues: <status> <id>"` (or
/// `"issues: update <id>"` when no status is set), and once committed it
/// reports "Marked <id> as <status>" (or "Updated <id>").
pub proof fn law_update_commits(
    s: Settings,
    id: String,
    file: String,
    sync: bool,
    status: Option<String>,
    r1: (Session, Request),
    o: GitOutput,
    r2: (Session, Request),
)
    requires
        (Session::Writing { settings: s, id, file, sync, status }).next(Reply::Done { result: Ok(()) }, r1),
        r1.0.next(Reply::Git { out: Ok(o) }, r2),
        o.success,
    ensures
        is_git(r1.1, seq!["-C"@, s.path@, "add"@, "issues/"@ + issue_id_spec(id@) + ".md"@], false),
        status is None ==> is_git(
            r2.1,
            seq!["-C"@, s.path@, "commit"@, "-m"@, "issues: update "@ + id@],
            false,
        ),
        status is Some ==> is_git(
            r2.1,
            seq!["-C"@, s.path@, "commit"@, "-m"@, "issues: "@ + status->0@ + " "@ + id@],
            false,
        ),
        r2.0 is Committing,
        status is None ==> r2.0->Committing_report@ == "Updated "@ + id@,
        status is Some ==> r2.0->Committing_report@ == "Marked "@ + id@ + " as "@ + status->0@,
{
    assert(add_args(s.path@, seq![issue_rel_spec(id@)]) =~= seq![
        "-C"@,
        s.path@,
        "add"@,
        "issues/"@ + issue_id_spec(id@) + ".md"@,
    ]);
    let msg = update_message(id@, opt_model(status));
    assert(r1.0 matches Session::Committing { commit: Commit::Add { .. }, .. });
    let s2 = r1.0->Committing_settings;
    let sy = r1.0->Committing_sync;
    let report = r1.0->Committing_report;
    let commit = r1.0->Committing_commit;
    let path = commit->Add_path;
    let files = commit->Add_files;
    let message = commit->Add_message;
    let reply = Reply::Git { out: Ok(o) };
    let st = choose|st: Step<Commit, Result<(), IssueError>>|
        #[trigger] commit_next(commit, reply, st) && match st {
            Step::Next(c2, req) => r2 == (Session::Committing { settings: s2, sync: sy, report, commit: c2 }, req),
            Step::Done(Err(e)) => ends_with_error(r2, e),
            Step::Done(Ok(_)) => r2 == (
                Session::Reporting { settings: s2, sync: sy },
                Request::Print { text: report, newline: true },
            ),
        };
    assert(git_out(reply) == Ok::<(bool, Seq<char>, Seq<char>), Seq<char>>((o.success, o.stdout@, o.stderr@)));
    assert(capture_spec(add_args(path@, strs(files@)), git_out(reply)) is Ok);
    assert(commit_args(path@, message@) =~= seq!["-C"@, s.path@, "commit"@, "-m"@, msg]);
    assert(st is Next);
    assert(is_git(r2.1, seq!["-C"@, s.path@, "commit"@, "-m"@, msg], false));
}

} // verus!
