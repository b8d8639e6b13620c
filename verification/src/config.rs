//! Per-repository settings, stored in `.git/config` under the `issues` section.

use vstd::prelude::*;
use crate::error::IssueError;
use crate::git::{GitOutput, capture, capture_spec, captured_model, output_model, strs};
use crate::path::{file_name, join_path, parent, path_join, std_file_name, std_parent};
use crate::request::{Reply, Request, is_git};
use crate::text::{chars_of, chars_eq, lines_chars, lines_of, push_str, string_of, trim};

verus! {

/// The issues branch used when `issues.branch` is not set.
pub const DEFAULT_BRANCH: &'static str = "meta/issues";

/// Resolved settings for the current repository.
pub struct Settings {
    /// The issues branch name (`issues.branch`).
    pub branch: String,
    /// Absolute path to the issues worktree (`issues.worktreepath`).
    pub path: String,
    /// Remote to sync against, if any (prefers `origin`).
    pub remote: Option<String>,
}

/// The character model of an optional string.
pub open spec fn opt_model(o: Option<String>) -> Option<Seq<char>> {
    match o {
        Some(s) => Some(s@),
        None => None,
    }
}

/// The arguments that read a config value.
pub open spec fn get_args(key: Seq<char>) -> Seq<Seq<char>> {
    seq!["config"@, "--get"@, key]
}

/// The arguments that write a config value.
pub open spec fn set_args(key: Seq<char>, value: Seq<char>) -> Seq<Seq<char>> {
    seq!["config"@, key, value]
}

/// The arguments that ask for the repository's top-level directory.
pub open spec fn root_args() -> Seq<Seq<char>> {
    seq!["rev-parse"@, "--show-toplevel"@]
}

/// The arguments that list the remotes.
pub open spec fn remote_args() -> Seq<Seq<char>> {
    seq!["remote"@]
}

/// What a `git config --get` run says: the trimmed value when git succeeded
/// and the value is not empty.
pub open spec fn config_value(out: Result<(bool, Seq<char>, Seq<char>), Seq<char>>) -> Option<
    Seq<char>,
> {
    match out {
        Ok((success, stdout, _)) => if success && trim(stdout).len() > 0 {
            Some(trim(stdout))
        } else {
            None
        },
        Err(_) => None,
    }
}

/// The arguments of `git config --get <key>`.
pub fn get_args_for(key: &str) -> (args: Vec<String>)
    ensures
        strs(args@) == get_args(key@),
{
    let args = vec!["config".to_owned(), "--get".to_owned(), key.to_owned()];
    assert(strs(args@) =~= get_args(key@));
    args
}

/// Read a `git config` value from the output of `git config --get <key>`:
/// `None` if git could not run, failed, or printed only whitespace.
pub fn get(out: Result<GitOutput, String>) -> (r: Option<String>)
    ensures
        opt_model(r) == config_value(output_model(out)),
{
    match out {
        Ok(o) => {
            if !o.success {
                return None;
            }
            let cs = chars_of(o.stdout.as_str());
            let t = crate::text::trim_chars(cs.as_slice());
            if t.len() == 0 {
                None
            } else {
                Some(string_of(t.as_slice()))
            }
        },
        Err(_) => None,
    }
}

/// The arguments of `git config <key> <value>`.
pub fn set_args_for(key: &str, value: &str) -> (args: Vec<String>)
    ensures
        strs(args@) == set_args(key@, value@),
{
    let args = vec!["config".to_owned(), key.to_owned(), value.to_owned()];
    assert(strs(args@) =~= set_args(key@, value@));
    args
}

/// The outcome of writing a `git config` value, from the run of
/// `git config <key> <value>`: success exactly when the run succeeded.
pub fn set(key: &str, value: &str, out: Result<GitOutput, String>) -> (r: Result<(), IssueError>)
    ensures
        match r {
            Ok(_) => capture_spec(set_args(key@, value@), output_model(out)) is Ok,
            Err(e) => capture_spec(set_args(key@, value@), output_model(out)) == captured_model(
                Err(e),
            ),
        },
{
    let args = set_args_for(key, value);
    match capture(args.as_slice(), out) {
        Ok(_) => Ok(()),
        Err(e) => Err(e),
    }
}

/// The arguments of `git rev-parse --show-toplevel`.
pub fn root_args_vec() -> (args: Vec<String>)
    ensures
        strs(args@) == root_args(),
{
    let args = vec!["rev-parse".to_owned(), "--show-toplevel".to_owned()];
    assert(strs(args@) =~= root_args());
    args
}

/// The repository's top-level directory, from the run of
/// `git rev-parse --show-toplevel`; a failure means "not inside a git
/// repository", with the git failure as its cause.
pub fn repo_root(out: Result<GitOutput, String>) -> (r: Result<String, IssueError>)
    ensures
        match capture_spec(root_args(), output_model(out)) {
            Ok(root) => r matches Ok(s) && s@ == root,
            Err(m) => r matches Err(IssueError::NotInRepository { source }) && captured_model(
                Err(*source),
            ) == Err::<Seq<char>, _>(m),
        },
{
    let args = root_args_vec();
    match capture(args.as_slice(), out) {
        Ok(root) => Ok(root),
        Err(e) => Err(IssueError::NotInRepository { source: Box::new(e) }),
    }
}

/// The remote's name git is conventionally given.
pub open spec fn origin() -> Seq<char> {
    "origin"@
}

/// The first non-empty line.
pub open spec fn first_nonempty(ls: Seq<Seq<char>>) -> Option<Seq<char>>
    decreases ls.len(),
{
    if ls.len() == 0 {
        None
    } else if ls[0].len() > 0 {
        Some(ls[0])
    } else {
        first_nonempty(ls.skip(1))
    }
}

/// The remote to sync with, from the listing of `git remote`: `origin` if
/// listed, otherwise the first one listed.
pub open spec fn remote_choice(listing: Seq<char>) -> Option<Seq<char>> {
    let ls = lines_of(listing);
    if exists|i: int| 0 <= i < ls.len() && ls[i] == origin() {
        Some(origin())
    } else {
        first_nonempty(ls)
    }
}

/// The remote chosen from a run of `git remote`: none when the run failed.
pub open spec fn detected_remote(out: Result<(bool, Seq<char>, Seq<char>), Seq<char>>) -> Option<
    Seq<char>,
> {
    match capture_spec(remote_args(), out) {
        Ok(listing) => remote_choice(listing),
        Err(_) => None,
    }
}

/// The arguments of `git remote`.
pub fn remote_args_vec() -> (args: Vec<String>)
    ensures
        strs(args@) == remote_args(),
{
    let args = vec!["remote".to_owned()];
    assert(strs(args@) =~= remote_args());
    args
}

/// Pick a remote to sync with from the listing `git remote` printed:
/// `origin` if present, otherwise the first one.
pub fn pick_remote(listing: &str) -> (r: Option<String>)
    ensures
        opt_model(r) == remote_choice(listing@),
{
    let cs = chars_of(listing);
    let ls = lines_chars(cs.as_slice());
    let ghost lm = ls@.map_values(|v: Vec<char>| v@);
    assert(lm =~= lines_of(listing@));
    let origin_name = "origin";
    let oc = chars_of(origin_name);
    let mut first: Option<usize> = None;
    let mut i: usize = 0;
    assert(lm.skip(0) =~= lm);
    while i < ls.len()
        invariant
            i <= ls.len(),
            oc@ == origin(),
            origin_name@ == origin(),
            lm == ls@.map_values(|v: Vec<char>| v@),
            lm == lines_of(listing@),
            forall|j: int| 0 <= j < i ==> lm[j] != origin(),
            match first {
                Some(f) => f < i && first_nonempty(lm) == Some(lm[f as int]),
                None => first_nonempty(lm) == first_nonempty(lm.skip(i as int)),
            },
        decreases ls.len() - i,
    {
        assert(lm[i as int] == ls@[i as int]@);
        if chars_eq(ls[i].as_slice(), oc.as_slice()) {
            assert(lm.len() == ls@.len());
            assert(lm[i as int] == origin());
            assert(lines_of(listing@)[i as int] == origin());
            return Some(origin_name.to_owned());
        }
        if first.is_none() {
            assert(lm.skip(i as int).skip(1) =~= lm.skip(i + 1));
            if ls[i].len() > 0 {
                first = Some(i);
            }
        }
        i = i + 1;
    }
    match first {
        Some(f) => Some(string_of(ls[f].as_slice())),
        None => None,
    }
}

/// Pick a remote from the run of `git remote`, or none if it failed.
pub fn detect_remote(out: Result<GitOutput, String>) -> (r: Option<String>)
    ensures
        opt_model(r) == detected_remote(output_model(out)),
{
    let args = remote_args_vec();
    match capture(args.as_slice(), out) {
        Ok(listing) => pick_remote(listing.as_str()),
        Err(_) => None,
    }
}

/// The default worktree path for a repository at `root`, given what
/// `Path::file_name` and `Path::parent` say of it: a sibling directory
/// `<name>-issues` (`repo-issues` for a root without a name; next to the root
/// itself when it has no parent).
pub open spec fn default_path_from_spec(
    root: Seq<char>,
    name: Option<Seq<char>>,
    parent: Option<Seq<char>>,
) -> Seq<char> {
    let n = match name {
        Some(n) => n,
        None => "repo"@,
    };
    let base = match parent {
        Some(p) => p,
        None => root,
    };
    path_join(base, n + "-issues"@)
}

/// Default worktree path: a sibling directory `../<repo-name>-issues`.
pub open spec fn default_path_spec(root: Seq<char>) -> Seq<char> {
    default_path_from_spec(root, std_file_name(root), std_parent(root))
}

/// The default worktree path for `root`, from its file name and parent.
pub fn default_path_from(root: &str, name: Option<String>, parent: Option<String>) -> (p: String)
    ensures
        p@ == default_path_from_spec(root@, opt_model(name), opt_model(parent)),
{
    let mut n = match name {
        Some(n) => n,
        None => "repo".to_owned(),
    };
    push_str(&mut n, "-issues");
    match parent {
        Some(base) => join_path(base.as_str(), n.as_str()),
        None => join_path(root, n.as_str()),
    }
}

/// Default worktree path: a sibling directory `../<repo-name>-issues`.
pub fn default_path(root: &str) -> (p: String)
    ensures
        p@ == default_path_spec(root@),
{
    let name = file_name(root);
    let base = parent(root);
    default_path_from(root, name, base)
}

/// Where resolving the settings has got to.
pub enum Resolve {
    /// Waiting for the repository root.
    Root,
    /// Waiting for `issues.branch`.
    Branch { root: String },
    /// Waiting for `issues.worktreepath`.
    WorktreePath { root: String, branch: String },
    /// Waiting for the list of remotes.
    Remote { root: String, branch: String, path: String },
}

/// One step of a sub-task: go on with a new state and a request, or finish.
pub enum Step<S, T> {
    /// Not finished: the next state and what to do.
    Next(S, Request),
    /// Finished with this value.
    Done(T),
}

/// The configured branch, or the default one.
pub open spec fn branch_or_default(v: Option<Seq<char>>) -> Seq<char> {
    match v {
        Some(b) => b,
        None => DEFAULT_BRANCH@,
    }
}

/// The configured worktree path, or the default one for `root`.
pub open spec fn path_or_default(v: Option<Seq<char>>, root: Seq<char>) -> Seq<char> {
    match v {
        Some(p) => p,
        None => default_path_spec(root),
    }
}

/// The settings hold these values.
pub open spec fn settings_are(
    s: Settings,
    branch: Seq<char>,
    path: Seq<char>,
    remote: Option<Seq<char>>,
) -> bool {
    s.branch@ == branch && s.path@ == path && opt_model(s.remote) == remote
}

/// What a git reply carries.
pub open spec fn git_reply(reply: Reply) -> Result<(bool, Seq<char>, Seq<char>), Seq<char>>
    recommends
        reply is Git,
{
    output_model(reply->Git_out)
}

/// One step of resolving: the root comes first (its failure ends resolving),
/// then the configured branch and worktree path (each falling back to its
/// default), then the remote.
pub open spec fn resolve_next(
    stage: Resolve,
    reply: Reply,
    r: Step<Resolve, Result<Settings, IssueError>>,
) -> bool {
    match stage {
        Resolve::Root => match capture_spec(root_args(), git_reply(reply)) {
            Ok(root) => r matches Step::Next(Resolve::Branch { root: x }, req) && x@ == root
                && is_git(req, get_args("issues.branch"@), false),
            Err(m) => r matches Step::Done(Err(IssueError::NotInRepository { source }))
                && captured_model(Err(*source)) == Err::<Seq<char>, _>(m),
        },
        Resolve::Branch { root } => r matches Step::Next(
            Resolve::WorktreePath { root: x, branch: b },
            req,
        ) && x@ == root@ && b@ == branch_or_default(config_value(git_reply(reply))) && is_git(
            req,
            get_args("issues.worktreepath"@),
            false,
        ),
        Resolve::WorktreePath { root, branch } => r matches Step::Next(
            Resolve::Remote { root: x, branch: b, path: p },
            req,
        ) && x@ == root@ && b@ == branch@ && p@ == path_or_default(
            config_value(git_reply(reply)),
            root@,
        ) && is_git(req, remote_args(), false),
        Resolve::Remote { root, branch, path } => r matches Step::Done(Ok(s)) && settings_are(
            s,
            branch@,
            path@,
            detected_remote(git_reply(reply)),
        ),
    }
}

/// Resolve effective settings from config, falling back to defaults: the
/// first step asks for the repository root.
pub fn resolve() -> (r: (Resolve, Request))
    ensures
        r.0 is Root,
        is_git(r.1, root_args(), false),
{
    (Resolve::Root, Request::Git { args: root_args_vec(), inherit: false })
}

impl Resolve {
    /// The next step of resolving, given the answer to the last request. The
    /// root comes first (its failure ends resolving), then the configured
    /// branch and worktree path (each falling back to its default), then the
    /// remote.
    pub fn step(self, reply: Reply) -> (r: Step<Resolve, Result<Settings, IssueError>>)
        requires
            reply is Git,
        ensures
            resolve_next(self, reply, r),
    {
        let out = match reply {
            Reply::Git { out } => out,
            _ => {
                assert(false);
                Err(String::new())
            },
        };
        match self {
            Resolve::Root => match repo_root(out) {
                Ok(root) => Step::Next(
                    Resolve::Branch { root },
                    Request::Git { args: get_args_for("issues.branch"), inherit: false },
                ),
                Err(e) => Step::Done(Err(e)),
            },
            Resolve::Branch { root } => {
                let branch = match get(out) {
                    Some(b) => b,
                    None => DEFAULT_BRANCH.to_owned(),
                };
                Step::Next(
                    Resolve::WorktreePath { root, branch },
                    Request::Git { args: get_args_for("issues.worktreepath"), inherit: false },
                )
            },
            Resolve::WorktreePath { root, branch } => {
                let path = match get(out) {
                    Some(p) => p,
                    None => default_path(root.as_str()),
                };
                Step::Next(
                    Resolve::Remote { root, branch, path },
                    Request::Git { args: remote_args_vec(), inherit: false },
                )
            },
            Resolve::Remote { root, branch, path } => {
                let remote = detect_remote(out);
                Step::Done(Ok(Settings { branch, path, remote }))
            },
        }
    }
}

} // verus!
