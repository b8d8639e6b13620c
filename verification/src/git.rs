//! What a finished `git` run tells the library, and what it concludes.

use vstd::prelude::*;
use crate::error::IssueError;
use crate::text::{chars_of, join, push_char, push_str, string_of, trim, trim_chars};

verus! {

/// The result of running `git` with captured output, as text.
pub struct GitOutput {
    /// Whether git exited successfully.
    pub success: bool,
    /// Its standard output.
    pub stdout: String,
    /// Its standard error.
    pub stderr: String,
}

/// The character model of a list of strings.
pub open spec fn strs(v: Seq<String>) -> Seq<Seq<char>> {
    v.map_values(|s: String| s@)
}

/// The arguments joined with spaces, as error messages show a command.
pub open spec fn command_line(args: Seq<Seq<char>>) -> Seq<char> {
    join(args, seq![' '])
}

/// The arguments of a git command joined with single spaces.
pub fn join_args(args: &[String]) -> (out: String)
    ensures
        out@ == command_line(strs(args@)),
{
    let ghost parts = strs(args@);
    let mut out = String::new();
    let mut i: usize = 0;
    while i < args.len()
        invariant
            i <= args.len(),
            parts == strs(args@),
            out@ == join(parts.take(i as int), seq![' ']),
        decreases args.len() - i,
    {
        if i > 0 {
            push_char(&mut out, ' ');
        }
        push_str(&mut out, args[i].as_str());
        proof {
            let t = parts.take(i + 1);
            assert(t.drop_last() =~= parts.take(i as int));
            assert(t.last() == args@[i as int]@);
        }
        i = i + 1;
    }
    assert(parts.take(args.len() as int) =~= parts);
    out
}

/// The trimmed text of a string.
pub fn trimmed(s: &str) -> (out: String)
    ensures
        out@ == trim(s@),
{
    let cs = chars_of(s);
    let t = trim_chars(cs.as_slice());
    string_of(t.as_slice())
}

/// What `capture` concludes from a git run.
pub open spec fn capture_spec(
    args: Seq<Seq<char>>,
    out: Result<(bool, Seq<char>, Seq<char>), Seq<char>>,
) -> Result<Seq<char>, (bool, Seq<char>, Seq<char>)> {
    match out {
        Err(cause) => Err((true, command_line(args), cause)),
        Ok((success, stdout, stderr)) => if success {
            Ok(trim(stdout))
        } else {
            Err((false, command_line(args), trim(stderr)))
        },
    }
}

/// The plain model of a git run: its output, or why it could not start.
pub open spec fn output_model(out: Result<GitOutput, String>) -> Result<
    (bool, Seq<char>, Seq<char>),
    Seq<char>,
> {
    match out {
        Ok(o) => Ok((o.success, o.stdout@, o.stderr@)),
        Err(cause) => Err(cause@),
    }
}

/// The plain model of `capture`'s result: the text, or the failure as
/// (could not start, command line, cause or trimmed error output).
pub open spec fn captured_model(r: Result<String, IssueError>) -> Result<
    Seq<char>,
    (bool, Seq<char>, Seq<char>),
> {
    match r {
        Ok(s) => Ok(s@),
        Err(IssueError::Spawn { command, cause }) => Err((true, command@, cause@)),
        Err(IssueError::GitFailed { command, stderr }) => Err((false, command@, stderr@)),
        Err(_) => Err((false, seq![], seq![])),
    }
}

/// A git run that must succeed: its trimmed standard output, or the error
/// naming the command (and git's trimmed error output when it ran).
pub fn capture(args: &[String], out: Result<GitOutput, String>) -> (r: Result<String, IssueError>)
    ensures
        captured_model(r) == capture_spec(strs(args@), output_model(out)),
        r is Err ==> (r->Err_0 is Spawn || r->Err_0 is GitFailed),
{
    match out {
        Err(cause) => {
            let command = join_args(args);
            Err(IssueError::Spawn { command, cause })
        },
        Ok(o) => {
            if o.success {
                Ok(trimmed(o.stdout.as_str()))
            } else {
                let command = join_args(args);
                let stderr = trimmed(o.stderr.as_str());
                Err(IssueError::GitFailed { command, stderr })
            }
        },
    }
}

} // verus!
