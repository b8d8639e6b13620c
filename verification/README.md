# git_issues

File-based issue tracking for git repositories: issues are Markdown files with
a small `key: value` front-matter block, kept on a dedicated orphan branch that
is checked out in its own worktree, so they travel with `git push`/`pull`.

The library in `src/` is verified with Verus. It never performs I/O itself:
each subcommand is a `cmd::Session`, a state machine whose `step` takes the
answer to the last `request::Request` (a git run, a file read, a print, ...)
and returns the next state and request, with a contract stating exactly what
that is. The binary in `app/` parses the command line and carries the
requests out.

Modules:

- `text` — characters, whitespace, `trim`, `lines`, `split_once`, `join`.
- `frontmatter` — the issue document format; parsing after rendering gives
  the document back (`law_parse_render`).
- `util` — slugs, issue IDs and timestamps; slugs have a fixed shape and are
  their own slug.
- `path` — Unix path joining and file-name parts.
- `git`, `config` — what git's output means: captured output, config values,
  the remote, the default worktree path, and resolving the settings.
- `version` — reading `git --version`.
- `listing` — filtering, ordering and laying out the rows of `list`.
- `completions` — the bash, zsh and fish completion scripts.
- `request`, `error`, `cmd` — the conversation with the outside world, the
  errors and their messages, and the subcommands themselves (including the
  hidden `complete-ids` that the completion scripts call).
