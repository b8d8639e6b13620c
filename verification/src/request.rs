//! The conversation between a command and the world outside the library.
//!
//! A command never touches git, files or the terminal itself. Each step hands
//! back a `Request` for the caller to carry out, and the caller answers with
//! the matching `Reply`.

use vstd::prelude::*;
use crate::error::IssueError;
use crate::git::{GitOutput, strs};

verus! {

/// Work a command asks its caller to do next.
pub enum Request {
    /// Run `git` with `args`. With `inherit` the child shares the terminal
    /// and only its exit status matters; otherwise its output is captured.
    Git { args: Vec<String>, inherit: bool },
    /// Check whether `path` exists.
    Exists { path: String },
    /// Read the file at `path` as text.
    ReadFile { path: String },
    /// Write `contents` to the file at `path`.
    WriteFile { path: String, contents: String },
    /// Create the directory `path` and its parents.
    CreateDirAll { path: String },
    /// List the names of the entries of the directory `path`.
    ReadDir { path: String },
    /// Report the current directory.
    CurrentDir,
    /// Run `sh -c <script> sh <file>` on the terminal.
    Editor { script: String, file: String },
    /// Print `text` to standard output, followed by a newline if `newline`.
    Print { text: String, newline: bool },
    /// The command is over, with this result.
    Finish { result: Result<(), IssueError> },
}

/// The caller's answer to the last request.
pub enum Reply {
    /// Nothing was asked yet: the first step of a command.
    Start,
    /// A git run: its output, or why it could not be started.
    Git { out: Result<GitOutput, String> },
    /// Whether the path exists.
    Exists { found: bool },
    /// The text of the file, or why it could not be read.
    Read { text: Result<String, String> },
    /// A write, a directory creation or a print was done, or why it failed.
    Done { result: Result<(), String> },
    /// The entry names of a directory, or why it could not be read.
    Dir { names: Result<Vec<String>, String> },
    /// The current directory, or why it is unknown.
    CurrentDir { dir: Result<String, String> },
    /// Whether the editor exited successfully, or why it could not start.
    Editor { status: Result<bool, String> },
}

/// A request to run git with these arguments.
pub open spec fn is_git(r: Request, args: Seq<Seq<char>>, inherit: bool) -> bool {
    r matches Request::Git { args: a, inherit: i } && strs(a@) == args && i == inherit
}

/// A request to check whether `path` exists.
pub open spec fn is_exists(r: Request, path: Seq<char>) -> bool {
    r matches Request::Exists { path: p } && p@ == path
}

/// A request to read the file at `path`.
pub open spec fn is_read(r: Request, path: Seq<char>) -> bool {
    r matches Request::ReadFile { path: p } && p@ == path
}

/// A request to write `contents` to `path`.
pub open spec fn is_write(r: Request, path: Seq<char>, contents: Seq<char>) -> bool {
    r matches Request::WriteFile { path: p, contents: c } && p@ == path && c@ == contents
}

/// A request to create the directory `path`.
pub open spec fn is_mkdir(r: Request, path: Seq<char>) -> bool {
    r matches Request::CreateDirAll { path: p } && p@ == path
}

/// A request to list the directory `path`.
pub open spec fn is_read_dir(r: Request, path: Seq<char>) -> bool {
    r matches Request::ReadDir { path: p } && p@ == path
}

/// A request to print `text`.
pub open spec fn is_print(r: Request, text: Seq<char>, newline: bool) -> bool {
    r matches Request::Print { text: t, newline: n } && t@ == text && n == newline
}

/// A request that ends the command successfully.
pub open spec fn is_finish_ok(r: Request) -> bool {
    r matches Request::Finish { result: Ok(_) }
}

/// Whether `reply` is of the kind that answers `req` (a request to finish
/// waits for no answer).
pub open spec fn answers(req: Request, reply: Reply) -> bool {
    match req {
        Request::Git { .. } => reply is Git,
        Request::Exists { .. } => reply is Exists,
        Request::ReadFile { .. } => reply is Read,
        Request::WriteFile { .. } => reply is Done,
        Request::CreateDirAll { .. } => reply is Done,
        Request::ReadDir { .. } => reply is Dir,
        Request::CurrentDir => reply is CurrentDir,
        Request::Editor { .. } => reply is Editor,
        Request::Print { .. } => reply is Done,
        Request::Finish { .. } => false,
    }
}

} // verus!
