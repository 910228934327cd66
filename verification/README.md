# grove

grove pairs each branch of a repository with its own git worktree and its
own terminal-multiplexer session (zellij or tmux), and keeps a small
registry of the repositories it manages.

## Layout

- `src/` — the library, verified with Verus. Public functions state their
  results in their contracts (those that forward to a `Multiplexer`
  implementation or depend on the environment state what can be known);
  laws that span several functions are public proof functions (`law_*`).
  - `text` — string helpers stated over `Seq<char>` (search, split, trim,
    lines, path joining, sorting, decimal numbers).
  - `git` — repository layouts, git's porcelain and listing output, clone
    and branch bookkeeping, worktree directories.
  - `migrate` — converting a legacy bare repository to the container layout,
    as a sequence of filesystem steps and the rollback a failed step issues.
  - `config` — shell, multiplexer backend, and the named directories.
  - `open` — the branch picker, branch arguments, and finding or creating
    the worktree to open.
  - `tree` — stale worktrees, orphaned sessions, closing, and pruning
    worktrees whose branch is merged or gone.
  - `multiplexer`, `tmux`, `zellij`, `session` — session names, the
    multiplexer interface, layout templates, and each backend's commands.
  - `db` — repository statuses and the registry's queries.
  - `init`, `cli` — the shell integration scripts and the subcommands.
- `app/` — the `grove` program: argument parsing, the configuration file,
  the SQLite registry, running git and the multiplexers, and prompts.
- `tests/` — tests of the library on concrete values.
