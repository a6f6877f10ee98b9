//! Verified core of the git-mit tool suite: the decisions and text handling
//! behind `git-mit`, `git-authors`, `git-mit-relates-to`, `git-mit-config`
//! and `mit-pre-commit`, separated from their command line and I/O.

pub mod text;
pub mod duration;
pub mod shell;
pub mod vcs;
pub mod relates_to;
pub mod git_authors;
pub mod git_mit;
pub mod pre_commit;
pub mod lint_config;
