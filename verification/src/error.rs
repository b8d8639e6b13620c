//! The ways a command can fail.

use vstd::prelude::*;
use crate::text::push_str;

verus! {

/// Why a command failed. Each variant carries the values its message names.
pub enum IssueError {
    /// `git <command>` could not be started.
    Spawn { command: String, cause: String },
    /// `git <command>` ran and failed; `stderr` is its trimmed error output.
    GitFailed { command: String, stderr: String },
    /// The working directory is not inside a git repository.
    NotInRepository { source: Box<IssueError> },
    /// The installed git lacks `worktree add --orphan`; `found` is its
    /// version line.
    GitTooOld { found: String },
    /// The current directory could not be determined.
    CurrentDir { cause: String },
    /// The issues worktree has not been set up at `path`.
    WorktreeMissing { path: String },
    /// There is no issue file for `id`.
    NoSuchIssue { id: String },
    /// The editor `editor` could not be started.
    EditorLaunch { editor: String, cause: String },
    /// The editor exited with a failure status.
    EditorFailed,
    /// A file or directory could not be read.
    CannotRead { path: String, cause: String },
    /// A file could not be written.
    CannotWrite { path: String, cause: String },
    /// A directory could not be created.
    CannotCreate { path: String, cause: String },
    /// `path` exists but is not a git worktree.
    NotAWorktree { path: String },
    /// Neither attaching nor creating the issues branch worked; the trimmed
    /// error output of both attempts.
    WorktreeCreate { attach: String, orphan: String },
    /// The `issues/` directory could not be created in a new worktree.
    CannotCreateIssuesDir { cause: String },
    /// The `issues/.gitkeep` file could not be written in a new worktree.
    CannotSeedIssuesDir { cause: String },
    /// `new` was given a blank title.
    TitleRequired,
    /// The repository has no remote to sync with.
    NoRemote,
    /// Merging the fetched issues branch failed.
    MergeConflict,
    /// Pushing the issues branch failed.
    PushFailed,
}

/// The message an error is shown with (a cause, where there is one, is
/// shown after it).
pub open spec fn message_spec(e: IssueError) -> Seq<char> {
    match e {
        IssueError::Spawn { command, .. } => "failed to spawn `git "@ + command@ + "`"@,
        IssueError::GitFailed { command, stderr } => "`git "@ + command@ + "` failed: "@ + stderr@,
        IssueError::NotInRepository { .. } => "not inside a git repository"@,
        IssueError::GitTooOld { found } => "git >= 2.42 is required for `worktree add --orphan`; found: "@ + found@,
        IssueError::CurrentDir { .. } => "cannot determine current directory"@,
        IssueError::WorktreeMissing { path } => "issues worktree not found at "@ + path@ + "\nRun `git issues init` first."@,
        IssueError::NoSuchIssue { id } => "no such issue: "@ + id@,
        IssueError::EditorLaunch { editor, .. } => "failed to launch editor ("@ + editor@ + ")"@,
        IssueError::EditorFailed => "editor exited with a non-zero status"@,
        IssueError::CannotRead { path, .. } => "cannot read "@ + path@,
        IssueError::CannotWrite { path, .. } => "cannot write "@ + path@,
        IssueError::CannotCreate { path, .. } => "cannot create "@ + path@,
        IssueError::NotAWorktree { path } => path@ + " already exists but is not a git worktree; remove it or choose another --path"@,
        IssueError::WorktreeCreate { attach, orphan } => "failed to create issues worktree.\n  attach attempt: "@ + attach@ + "\n  orphan attempt: "@ + orphan@,
        IssueError::CannotCreateIssuesDir { .. } => "cannot create issues/"@,
        IssueError::CannotSeedIssuesDir { .. } => "cannot seed issues/"@,
        IssueError::TitleRequired => "an issue title is required"@,
        IssueError::NoRemote => "no remote configured for this repository; nothing to sync"@,
        IssueError::MergeConflict => "merge conflict while syncing — resolve it inside the issues worktree, then re-run `git issues sync`"@,
        IssueError::PushFailed => "push failed"@,
    }
}

/// The text of the failure behind an error, where it carries one.
pub open spec fn cause_spec(e: IssueError) -> Option<Seq<char>> {
    match e {
        IssueError::Spawn { cause, .. } => Some(cause@),
        IssueError::CurrentDir { cause } => Some(cause@),
        IssueError::EditorLaunch { cause, .. } => Some(cause@),
        IssueError::CannotRead { cause, .. } => Some(cause@),
        IssueError::CannotWrite { cause, .. } => Some(cause@),
        IssueError::CannotCreate { cause, .. } => Some(cause@),
        IssueError::CannotCreateIssuesDir { cause } => Some(cause@),
        IssueError::CannotSeedIssuesDir { cause } => Some(cause@),
        _ => None,
    }
}

impl IssueError {
    /// The message this error is shown with.
    pub fn message(&self) -> (m: String)
        ensures
            m@ == message_spec(*self),
    {
        match self {
            IssueError::Spawn { command, .. } => {
                let mut m = "failed to spawn `git ".to_owned();
                push_str(&mut m, command.as_str());
                push_str(&mut m, "`");
                m
            },
            IssueError::GitFailed { command, stderr } => {
                let mut m = "`git ".to_owned();
                push_str(&mut m, command.as_str());
                push_str(&mut m, "` failed: ");
                push_str(&mut m, stderr.as_str());
                m
            },
            IssueError::NotInRepository { .. } => {
                "not inside a git repository".to_owned()
            },
            IssueError::GitTooOld { found } => {
                let mut m = "git >= 2.42 is required for `worktree add --orphan`; found: ".to_owned();
                push_str(&mut m, found.as_str());
                m
            },
            IssueError::CurrentDir { .. } => {
                "cannot determine current directory".to_owned()
            },
            IssueError::WorktreeMissing { path } => {
                let mut m = "issues worktree not found at ".to_owned();
                push_str(&mut m, path.as_str());
                push_str(&mut m, "\nRun `git issues init` first.");
                m
            },
            IssueError::NoSuchIssue { id } => {
                let mut m = "no such issue: ".to_owned();
                push_str(&mut m, id.as_str());
                m
            },
            IssueError::EditorLaunch { editor, .. } => {
                let mut m = "failed to launch editor (".to_owned();
                push_str(&mut m, editor.as_str());
                push_str(&mut m, ")");
                m
            },
            IssueError::EditorFailed => {
                "editor exited with a non-zero status".to_owned()
            },
            IssueError::CannotRead { path, .. } => {
                let mut m = "cannot read ".to_owned();
                push_str(&mut m, path.as_str());
                m
            },
            IssueError::CannotWrite { path, .. } => {
                let mut m = "cannot write ".to_owned();
                push_str(&mut m, path.as_str());
                m
            },
            IssueError::CannotCreate { path, .. } => {
                let mut m = "cannot create ".to_owned();
                push_str(&mut m, path.as_str());
                m
            },
            IssueError::NotAWorktree { path } => {
                let mut m = path.clone();
                push_str(&mut m, " already exists but is not a git worktree; remove it or choose another --path");
                m
            },
            IssueError::WorktreeCreate { attach, orphan } => {
                let mut m = "failed to create issues worktree.\n  attach attempt: ".to_owned();
                push_str(&mut m, attach.as_str());
                push_str(&mut m, "\n  orphan attempt: ");
                push_str(&mut m, orphan.as_str());
                m
            },
            IssueError::CannotCreateIssuesDir { .. } => {
                "cannot create issues/".to_owned()
            },
            IssueError::CannotSeedIssuesDir { .. } => {
                "cannot seed issues/".to_owned()
            },
            IssueError::TitleRequired => {
                "an issue title is required".to_owned()
            },
            IssueError::NoRemote => {
                "no remote configured for this repository; nothing to sync".to_owned()
            },
            IssueError::MergeConflict => {
                "merge conflict while syncing — resolve it inside the issues worktree, then re-run `git issues sync`".to_owned()
            },
            IssueError::PushFailed => {
                "push failed".to_owned()
            },
        }
    }

    /// The text of the failure behind this error, where it carries one.
    pub fn cause(&self) -> (c: Option<String>)
        ensures
            match c {
                Some(t) => cause_spec(*self) == Some(t@),
                None => cause_spec(*self) is None,
            },
    {
        match self {
            IssueError::Spawn { cause, .. } => Some(cause.clone()),
            IssueError::CurrentDir { cause } => Some(cause.clone()),
            IssueError::EditorLaunch { cause, .. } => Some(cause.clone()),
            IssueError::CannotRead { cause, .. } => Some(cause.clone()),
            IssueError::CannotWrite { cause, .. } => Some(cause.clone()),
            IssueError::CannotCreate { cause, .. } => Some(cause.clone()),
            IssueError::CannotCreateIssuesDir { cause } => Some(cause.clone()),
            IssueError::CannotSeedIssuesDir { cause } => Some(cause.clone()),
            _ => None,
        }
    }
}

} // verus!
