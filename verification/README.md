# arbor

A git worktree manager: worktrees live under `~/.arbor/worktrees/<repo>/<branch>`
(slashes in branch names become dashes), bare clones under `~/.arbor/repos`.

The crate is split in two.

- `src/` is the library, verified with Verus. It holds what arbor decides and
  computes: reading `git worktree list --porcelain`, naming and placing
  worktrees, resolving a branch argument to its worktree, the git invocations
  each command makes (as `GitCommand` values), the summaries and tables shown
  to the user, shell detection and the startup-file edit of `arbor init`, and
  the per-project settings of `.arbor.toml`.
- `app/` is the `arbor` program around it: argument parsing, running git,
  reading and writing files, prompts, turning colors on or off, and laying
  out tables on the terminal. The colored texts themselves are made in
  `src/style.rs`.

Modules of the library:

| module | contents |
| --- | --- |
| `text` | string operations with their specifications (lines, words, trimming, decimals) |
| `paths` | `Path::join` and `Path::file_name` on strings |
| `git` | invocations of git and the reading of its output |
| `config` | `~/.arbor/config.toml`, `~` expansion, worktree locations |
| `hooks` | `.arbor.toml`: worktree directory override and `post_create` hooks |
| `style`, `display` | colored texts, summaries, table cells |
| `commands` | the decisions of each subcommand |
| `cli` | the command line and the color choice |
