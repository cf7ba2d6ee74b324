# gwt

A friendly `git worktree` manager: `gwt add <branch>` creates a worktree at a
predictable path (creating the branch when needed) and runs the hooks
configured in `.gwt.toml`; `gwt list`, `gwt cd`, `gwt remove` and `gwt clean`
find, navigate and tidy them.

The decisions are a library verified with Verus; the program around it runs
git, touches files and draws the terminal.

## Layout

- `src/` — the verified library. Every public function states what it returns
  in its contract, over the text of paths, git output and configuration.
  - `text.rs`, `paths.rs`: strings and Unix paths as `std` reads them
    (`lines`, `split`, `trim`, `Path::join`, lexical normalization, component
    comparison).
  - `git.rs`: reading `git worktree list --porcelain`, ref listings, upstream
    tracking, and git's output.
  - `config.rs`: the configuration, how the user's and the repository's files
    combine, and where worktrees go (`base_dir` with `~` and `{repo}`).
  - `repo.rs`: resolving a name to a worktree (branch, then path below the
    base directory, then directory name).
  - `hooks.rs`: where each hook acts, and what is said while hooks run.
  - `commands/`: what each subcommand decides — the branch plan of `add`,
    the refusals of `remove`, the states of `clean`, the table of `list`.
  - `tui.rs`: the picker's state (filter, cursor, scrolling) and its keys.
  - `completion.rs`: the shell completion candidates.
- `app/` — the program: command-line parsing, the configuration files,
  running git and hook commands, copying files, and the terminal.
- `tests/` — tests of the library on concrete values.

Laws of the library are public proof functions beside the functions they
relate, such as `paths::lemma_normalize_idempotent`,
`tui::lemma_up_undoes_down`, `commands::remove::lemma_main_worktree_is_refused`
and `repo::lemma_branch_name_finds_its_worktree`.
