use git_mit::lint_config::{
    is_local_scope, lint_subcommand_matches, lints_from_args, override_warning, GitMitConfigError,
};

#[test]
fn lints_are_read_from_their_names() {
    let names = vec!["not-emoji-log".to_string(), "duplicated-trailers".to_string()];
    let lints = lints_from_args(Some(&names)).unwrap();
    let mut got = lints.names();
    got.sort_unstable();
    assert_eq!(got, vec!["duplicated-trailers", "not-emoji-log"]);
}

#[test]
fn unknown_lint_name_is_an_error() {
    let names = vec!["not-emoji-log".to_string(), "no-such-lint".to_string()];
    assert!(matches!(
        lints_from_args(Some(&names)),
        Err(GitMitConfigError::LintNameUnknown(_))
    ));
}

#[test]
fn missing_lint_names_is_an_error() {
    assert!(matches!(lints_from_args(None), Err(GitMitConfigError::LintNameNotGiven)));
}

#[test]
fn subcommand_path_is_matched() {
    let path = vec!["lint".to_string(), "available".to_string()];
    assert!(lint_subcommand_matches(&path, "available"));
    assert!(!lint_subcommand_matches(&path, "disable"));
    assert!(!lint_subcommand_matches(&vec!["lint".to_string()], "available"));
    assert!(!lint_subcommand_matches(&vec!["relates-to".to_string(), "available".to_string()], "available"));
}

#[test]
fn scope_is_local_only_when_asked() {
    assert!(is_local_scope(Some("local")));
    assert!(!is_local_scope(Some("global")));
    assert!(!is_local_scope(None));
}

#[test]
fn override_warning_only_for_a_config_file() {
    assert_eq!(override_warning(""), None);
    assert_eq!(
        override_warning("[mit.lint]\nnot-emoji-log = true\n"),
        Some("Warning: your config is overridden by a repository config file")
    );
}
