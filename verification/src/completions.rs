//! Shell completion scripts for `git issues`: bash, zsh and fish.
//!
//! Each script completes the subcommand names and, for `show`, `edit`,
//! `close` and `reopen`, asks `git issues complete-ids` for issue IDs.

use vstd::prelude::*;
use crate::text::{trim, is_ws, lemma_trim_start, lemma_trim_end};

verus! {

/// A shell we can emit completion for.
#[derive(Clone, Copy, Debug, PartialEq, Eq, Structural)]
pub enum Shell {
    Bash,
    Zsh,
    Fish,
}

/// The bash script: git's bash completion calls `_git_issues`.
pub const BASH_SCRIPT: &'static str = r#"# git issues — bash completion (source after git's own bash completion).
# git's completion calls `_git_issues` for `git issues …`.
_git_issues() {
    local subcommands="init new list show edit close reopen sync path status completions"
    local cur="${COMP_WORDS[COMP_CWORD]}"
    local sub="" i
    for ((i = 2; i < COMP_CWORD; i++)); do
        case "${COMP_WORDS[i]}" in
            init|new|list|show|edit|close|reopen|sync|path|status|completions)
                sub="${COMP_WORDS[i]}"; break;;
        esac
    done

    if [ -z "$sub" ]; then
        COMPREPLY=($(compgen -W "$subcommands" -- "$cur"))
        return
    fi

    case "$sub" in
        show|edit|close|reopen)
            if [[ "$cur" == -* ]]; then
                COMPREPLY=($(compgen -W "--sync" -- "$cur"))
            else
                COMPREPLY=($(compgen -W "$(git issues complete-ids 2>/dev/null)" -- "$cur"))
            fi
            ;;
        completions)
            COMPREPLY=($(compgen -W "bash zsh fish" -- "$cur"))
            ;;
    esac
}
"#;

/// The zsh script: zsh's `_git` hands `git issues` to `_git-issues`.
pub const ZSH_SCRIPT: &'static str = r#"#compdef git-issues
# git issues — zsh completion. zsh's _git dispatches to _git-issues for
# `git issues …`; this file also serves the standalone `git-issues` binary.

local curcontext="$curcontext" state line
typeset -A opt_args

local -a subcommands
subcommands=(
    'init:Set up the issues worktree'
    'new:Create a new issue'
    'list:List issues'
    'show:Print an issue'
    'edit:Edit an issue'
    'close:Close an issue'
    'reopen:Reopen an issue'
    'sync:Sync the issues branch'
    'path:Print the worktree path'
    'status:Show ahead/behind'
    'completions:Print a shell completion script'
)

_arguments -C \
    '1: :->subcommand' \
    '*:: :->args' && return

case $state in
    subcommand)
        _describe -t commands 'git issues command' subcommands
        ;;
    args)
        case $line[1] in
            show|edit|close|reopen)
                local -a ids
                ids=(${(f)"$(git issues complete-ids 2>/dev/null)"})
                _describe -t issues 'issue' ids
                ;;
            completions)
                local -a shells
                shells=(bash zsh fish)
                _describe -t shells 'shell' shells
                ;;
        esac
        ;;
esac
"#;

/// The fish script: completions for `git` once `issues` is on the line.
pub const FISH_SCRIPT: &'static str = r#"# git issues — fish completion.

# Disable file completion once `issues` is on the command line.
complete -c git -n '__fish_seen_subcommand_from issues' -f

# Subcommand names (only before a sub-subcommand is chosen).
complete -c git -n '__fish_seen_subcommand_from issues; and not __fish_seen_subcommand_from init new list show edit close reopen sync path status completions' \
    -a 'init new list show edit close reopen sync path status completions'

# Dynamic issue IDs for the ID-taking commands.
complete -c git -n '__fish_seen_subcommand_from issues; and __fish_seen_subcommand_from show edit close reopen' \
    -a '(git issues complete-ids 2>/dev/null)'

# Shell names for `completions`.
complete -c git -n '__fish_seen_subcommand_from issues; and __fish_seen_subcommand_from completions' \
    -a 'bash zsh fish'
"#;

/// The completion script for a shell.
pub open spec fn script_spec(shell: Shell) -> Seq<char> {
    match shell {
        Shell::Bash => BASH_SCRIPT@,
        Shell::Zsh => ZSH_SCRIPT@,
        Shell::Fish => FISH_SCRIPT@,
    }
}

/// The embedded completion script for a shell.
pub fn script_for(shell: Shell) -> (s: &'static str)
    ensures
        s@ == script_spec(shell),
{
    match shell {
        Shell::Bash => BASH_SCRIPT,
        Shell::Zsh => ZSH_SCRIPT,
        Shell::Fish => FISH_SCRIPT,
    }
}

/// The command the scripts run to list issue IDs.
pub open spec fn callback() -> Seq<char> {
    "git issues complete-ids"@
}

/// `t` occurs in `s` at position `k`.
pub open spec fn occurs_at(s: Seq<char>, t: Seq<char>, k: int) -> bool {
    0 <= k && k + t.len() <= s.len() && s.subrange(k, k + t.len()) == t
}

/// Text holding a non-whitespace character is not blank once trimmed.
proof fn lemma_not_blank(s: Seq<char>, k: int)
    requires
        0 <= k < s.len(),
        !is_ws(s[k]),
    ensures
        trim(s).len() > 0,
{
    lemma_trim_start(s);
    let k0 = choose|k0: int|
        0 <= k0 <= s.len() && crate::text::trim_start(s) == s.skip(k0) && forall|j: int|
            0 <= j < k0 ==> is_ws(#[trigger] s[j]);
    if k0 > k {
        assert(is_ws(s[k]));
    }
    let t = crate::text::trim_start(s);
    assert(t[k - k0] == s[k]);
    lemma_trim_end(t);
    let m = choose|m: int|
        0 <= m <= t.len() && crate::text::trim_end(t) == t.take(m) && forall|j: int|
            m <= j < t.len() ==> is_ws(#[trigger] t[j]);
    if m == 0 {
        assert(is_ws(t[k - k0]));
    }
}

/// Every script is non-blank and calls back into `git issues complete-ids`.
pub proof fn law_scripts_call_back(shell: Shell)
    ensures
        trim(script_spec(shell)).len() > 0,
        exists|k: int| occurs_at(script_spec(shell), callback(), k),
{
    reveal_strlit("git issues complete-ids");
    match shell {
        Shell::Bash => {
            reveal_strlit(r#"# git issues — bash completion (source after git's own bash completion).
# git's completion calls `_git_issues` for `git issues …`.
_git_issues() {
    local subcommands="init new list show edit close reopen sync path status completions"
    local cur="${COMP_WORDS[COMP_CWORD]}"
    local sub="" i
    for ((i = 2; i < COMP_CWORD; i++)); do
        case "${COMP_WORDS[i]}" in
            init|new|list|show|edit|close|reopen|sync|path|status|completions)
                sub="${COMP_WORDS[i]}"; break;;
        esac
    done

    if [ -z "$sub" ]; then
        COMPREPLY=($(compgen -W "$subcommands" -- "$cur"))
        return
    fi

    case "$sub" in
        show|edit|close|reopen)
            if [[ "$cur" == -* ]]; then
                COMPREPLY=($(compgen -W "--sync" -- "$cur"))
            else
                COMPREPLY=($(compgen -W "$(git issues complete-ids 2>/dev/null)" -- "$cur"))
            fi
            ;;
        completions)
            COMPREPLY=($(compgen -W "bash zsh fish" -- "$cur"))
            ;;
    esac
}
"#);
            assert(script_spec(shell).subrange(848int, 848int + 23) =~= callback());
            assert(occurs_at(script_spec(shell), callback(), 848));
            lemma_not_blank(script_spec(shell), 848);
        },
        Shell::Zsh => {
            reveal_strlit(r#"#compdef git-issues
# git issues — zsh completion. zsh's _git dispatches to _git-issues for
# `git issues …`; this file also serves the standalone `git-issues` binary.

local curcontext="$curcontext" state line
typeset -A opt_args

local -a subcommands
subcommands=(
    'init:Set up the issues worktree'
    'new:Create a new issue'
    'list:List issues'
    'show:Print an issue'
    'edit:Edit an issue'
    'close:Close an issue'
    'reopen:Reopen an issue'
    'sync:Sync the issues branch'
    'path:Print the worktree path'
    'status:Show ahead/behind'
    'completions:Print a shell completion script'
)

_arguments -C \
    '1: :->subcommand' \
    '*:: :->args' && return

case $state in
    subcommand)
        _describe -t commands 'git issues command' subcommands
        ;;
    args)
        case $line[1] in
            show|edit|close|reopen)
                local -a ids
                ids=(${(f)"$(git issues complete-ids 2>/dev/null)"})
                _describe -t issues 'issue' ids
                ;;
            completions)
                local -a shells
                shells=(bash zsh fish)
                _describe -t shells 'shell' shells
                ;;
        esac
        ;;
esac
"#);
            assert(script_spec(shell).subrange(921int, 921int + 23) =~= callback());
            assert(occurs_at(script_spec(shell), callback(), 921));
            lemma_not_blank(script_spec(shell), 921);
        },
        Shell::Fish => {
            reveal_strlit(r#"# git issues — fish completion.

# Disable file completion once `issues` is on the command line.
complete -c git -n '__fish_seen_subcommand_from issues' -f

# Subcommand names (only before a sub-subcommand is chosen).
complete -c git -n '__fish_seen_subcommand_from issues; and not __fish_seen_subcommand_from init new list show edit close reopen sync path status completions' \
    -a 'init new list show edit close reopen sync path status completions'

# Dynamic issue IDs for the ID-taking commands.
complete -c git -n '__fish_seen_subcommand_from issues; and __fish_seen_subcommand_from show edit close reopen' \
    -a '(git issues complete-ids 2>/dev/null)'

# Shell names for `completions`.
complete -c git -n '__fish_seen_subcommand_from issues; and __fish_seen_subcommand_from completions' \
    -a 'bash zsh fish'
"#);
            assert(script_spec(shell).subrange(626int, 626int + 23) =~= callback());
            assert(occurs_at(script_spec(shell), callback(), 626));
            lemma_not_blank(script_spec(shell), 626);
        },
    }
}

} // verus!
