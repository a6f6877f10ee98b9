# git-mit, verified core

The decisions and text handling of the git-mit tools (`git-mit`,
`git-authors`, `git-mit-relates-to`, `git-mit-config`, `mit-pre-commit`),
written in Verus with their contracts proved.

- `src/` — the verified library: decimal text (`text`), timeouts
  (`duration`), shells for completion scripts (`shell`), co-author settings
  read from a version control config (`vcs`), and the decisions of each tool
  (`relates_to`, `git_authors`, `git_mit`, `pre_commit`, `lint_config`).
- `tests/` — tests of the library, including property tests against `std`.
- `app/` — the command-line front end: argument parsing with clap, the git
  config through git2, files, commands and completion scripts.
