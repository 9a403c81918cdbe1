# renri

One verb set over git worktrees and jujutsu workspaces: add, list, remove, cd,
exec, prune, sync, and a sweep that removes the worktrees whose work is finished.

The library under `src/` holds the rules, parsers and state machines, each with a
contract that Verus proves. It does no I/O: where it needs a program run or a file
looked at, it says so and takes the reply as an argument, so that what it makes of
every possible reply is stated. The program under `app/` does the I/O.

Templates of plain text and references to the repository are rendered by the
library. A template that does more can read the environment and run programs: it
is handed out with the values in scope, and what came of it is taken as an
argument too.

| Module | What it holds |
| --- | --- |
| `text`, `strings` | what is said of texts, and its computation |
| `paths`, `order`, `path_display` | paths as text, on Unix and on Windows, their order, and how they are shown |
| `process` | actions for the outside, and their replies |
| `vcs` | detection, and the git and jj backends |
| `opened`, `discovery`, `picker` | opening a repository, finding projects, picking a worktree |
| `layout`, `render`, `config`, `hooks` | where worktrees go, templates, configuration, hooks |
| `pr_cache`, `landed`, `sweep`, `sweeping`, `removal` | what is finished, and removing it |
| `add`, `batch`, `commands`, `listing`, `details`, `report` | the commands and what they print |
| `shell_init`, `updater`, `user_dirs`, `style` | the shell function, updates, directories, colours |
