//! The decisions of `git-mit`: whether the repository's hooks are set up,
//! the warning given when they are not, and the refusal of unknown initials.

use vstd::prelude::*;

use crate::text::{spec_contains, str_contains, texts};

verus! {

/// Some initials given to `git-mit` have no author in the configuration.
#[derive(Debug, PartialEq, Eq)]
pub struct UnknownAuthor {
    /// The initials that were given.
    pub command: Vec<String>,
    /// Those of them that have no author.
    pub missing: Vec<String>,
}

/// The warning given when the repository has no git-mit hooks: its message
/// and the help that comes with it.
pub open spec fn spec_not_setup_warning() -> (Seq<char>, Seq<char>) {
    (
        "Hooks not found in this repository, your commits won't contain trailers, and lints will not be checked"@,
        "git mit-install\n\nwill fix this"@,
    )
}

/// The warning given when the hooks are not set up, and its help text.
pub fn not_setup_warning() -> (r: (&'static str, Option<&'static str>))
    ensures
        r.0@ == spec_not_setup_warning().0,
        r.1 matches Some(help) && help@ == spec_not_setup_warning().1,
{
    (
        "Hooks not found in this repository, your commits won't contain trailers, and lints will not be checked",
        Some("git mit-install\n\nwill fix this"),
    )
}

/// Whether the commit-msg hook, resolved to its real path, is git-mit's:
/// its path names `mit-commit-msg`. No resolved path means no hook.
pub fn is_hook_present(canonical_hook_path: Option<&str>) -> (r: bool)
    ensures
        r == match canonical_hook_path {
            None => false,
            Some(path) => spec_contains(path@, "mit-commit-msg"@),
        },
{
    match canonical_hook_path {
        None => false,
        Some(path) => str_contains(path, "mit-commit-msg"),
    }
}

/// Whether to warn that the hooks are not set up: inside a repository that
/// has no git-mit hook.
pub fn needs_setup_warning(repo_present: bool, hook_present: bool) -> (r: bool)
    ensures
        r == (repo_present && !hook_present),
{
    repo_present && !hook_present
}

/// Refuses the initials when any of them has no author.
pub fn check_initials(initials: Vec<String>, missing: Vec<String>) -> (r: Result<(), UnknownAuthor>)
    ensures
        missing@.len() == 0 ==> r is Ok,
        missing@.len() != 0 ==> (r matches Err(e) && texts(e.command@) == texts(initials@) && texts(
            e.missing@,
        ) == texts(missing@)),
{
    if missing.len() == 0 {
        Ok(())
    } else {
        Err(UnknownAuthor { command: initials, missing })
    }
}

} // verus!
