//! The decisions of `git-mit-config lint`: which of its subcommands was
//! chosen, the scope it works in, and the lints named on the command line.

use vstd::prelude::*;

use crate::text::{str_eq, texts};

verus! {

#[verifier::external_type_specification]
#[verifier::external_body]
pub struct ExLints(mit_lint::Lints);

#[verifier::external_type_specification]
#[verifier::external_body]
pub struct ExLintsError(mit_lint::Error);

/// The names of the lints that a `mit_lint::Lints` holds.
pub uninterp spec fn lint_set_names(lints: mit_lint::Lints) -> Set<Seq<char>>;

/// Whether `name` is the name of one of the lints that `mit_lint` offers.
pub open spec fn is_lint_name(name: Seq<char>) -> bool {
    ||| name == "duplicated-trailers"@
    ||| name == "pivotal-tracker-id-missing"@
    ||| name == "jira-issue-key-missing"@
    ||| name == "github-id-missing"@
    ||| name == "subject-not-separated-from-body"@
    ||| name == "subject-longer-than-72-characters"@
    ||| name == "subject-line-not-capitalized"@
    ||| name == "subject-line-ends-with-period"@
    ||| name == "body-wider-than-72-characters"@
    ||| name == "not-conventional-commit"@
    ||| name == "not-emoji-log"@
}

/// The texts of a list of string slices.
pub open spec fn str_texts(list: Seq<&str>) -> Seq<Seq<char>> {
    list.map_values(|s: &str| s@)
}

/// Calls `<mit_lint::Lints as TryFrom<Vec<&str>>>::try_from`, which looks up
/// each name among the lints' names: it fails exactly when some name is not a
/// lint's, and otherwise holds the lints named, each once.
#[verifier::external_body]
fn lints_from_names(names: Vec<&str>) -> (r: Result<mit_lint::Lints, mit_lint::Error>)
    ensures
        r is Ok <==> (forall|i: int| 0 <= i < names@.len() ==> is_lint_name(#[trigger] names@[i]@)),
        r matches Ok(lints) ==> lint_set_names(lints) == str_texts(names@).to_set(),
{
    mit_lint::Lints::try_from(names)
}

/// Why `git-mit-config lint disable` could not go on.
#[derive(Debug)]
pub enum GitMitConfigError {
    /// No lint was named.
    LintNameNotGiven,
    /// A name given is not a lint's.
    LintNameUnknown(mit_lint::Error),
}

/// The lints named on the command line: an error when none were given or
/// when a name is not a lint's.
pub fn lints_from_args(lint_names: Option<&Vec<String>>) -> (r: Result<mit_lint::Lints, GitMitConfigError>)
    ensures
        lint_names is None ==> r matches Err(GitMitConfigError::LintNameNotGiven),
        lint_names matches Some(names) ==> {
            &&& r is Ok <==> (forall|i: int| 0 <= i < names@.len() ==> is_lint_name(#[trigger] names@[i]@))
            &&& r matches Err(e) ==> e is LintNameUnknown
            &&& r matches Ok(lints) ==> lint_set_names(lints) == texts(names@).to_set()
        },
{
    match lint_names {
        None => Err(GitMitConfigError::LintNameNotGiven),
        Some(names) => {
            let mut refs: Vec<&str> = Vec::new();
            let mut i: usize = 0;
            while i < names.len()
                invariant
                    i <= names@.len(),
                    refs@.len() == i,
                    forall|j: int| 0 <= j < i ==> #[trigger] refs@[j]@ == names@[j]@,
                decreases names@.len() - i,
            {
                refs.push(names[i].as_str());
                i = i + 1;
            }
            let ghost given = refs@;
            assert(str_texts(given) =~= texts(names@));
            match lints_from_names(refs) {
                Ok(lints) => {
                    assert forall|j: int| 0 <= j < names@.len() implies is_lint_name(#[trigger] names@[j]@) by {
                        assert(given[j]@ == names@[j]@);
                    }
                    Ok(lints)
                },
                Err(e) => {
                    proof {
                        let k = choose|k: int| 0 <= k < given.len() && !is_lint_name(#[trigger] given[k]@);
                        assert(given[k]@ == names@[k]@);
                    }
                    Err(GitMitConfigError::LintNameUnknown(e))
                },
            }
        },
    }
}

/// Whether the chosen subcommand is `lint` followed by `name`.
pub fn lint_subcommand_matches(subcommands: &Vec<String>, name: &str) -> (r: bool)
    ensures
        r == (subcommands@.len() >= 2 && subcommands@[0]@ == "lint"@ && subcommands@[1]@ == name@),
{
    subcommands.len() >= 2 && str_eq(subcommands[0].as_str(), "lint") && str_eq(subcommands[1].as_str(), name)
}

/// Whether the scope asked for is the repository's own config.
pub fn is_local_scope(scope: Option<&str>) -> (r: bool)
    ensures
        r == (scope matches Some(s) && s@ == "local"@),
{
    match scope {
        Some(s) => str_eq(s, "local"),
        None => false,
    }
}

/// The warning given when a repository config file overrides the lints set
/// in the version control config: given exactly when that file is not empty.
pub fn override_warning(toml: &str) -> (r: Option<&'static str>)
    ensures
        toml@.len() == 0 ==> r is None,
        toml@.len() != 0 ==> (r matches Some(w) && w@
            == "Warning: your config is overridden by a repository config file"@),
{
    if toml.is_empty() {
        None
    } else {
        Some("Warning: your config is overridden by a repository config file")
    }
}

} // verus!
