use git_mit::git_mit::{check_initials, is_hook_present, needs_setup_warning, not_setup_warning};
use git_mit::pre_commit::{check_author_state, AuthorState, PreCommitError};

#[test]
fn not_setup_warning_text() {
    let (message, help) = not_setup_warning();
    assert_eq!(
        message,
        "Hooks not found in this repository, your commits won't contain trailers, and lints will not be checked"
    );
    assert_eq!(help, Some("git mit-install\n\nwill fix this"));
}

#[test]
fn hook_is_present_only_when_it_is_git_mit_s() {
    assert!(is_hook_present(Some("/usr/local/bin/mit-commit-msg")));
    assert!(!is_hook_present(Some("/repo/.git/hooks/commit-msg")));
    assert!(!is_hook_present(None));
}

#[test]
fn warning_only_in_a_repository_without_hooks() {
    assert!(needs_setup_warning(true, false));
    assert!(!needs_setup_warning(true, true));
    assert!(!needs_setup_warning(false, false));
    assert!(!needs_setup_warning(false, true));
}

#[test]
fn unknown_initials_are_refused() {
    let initials = vec!["ae".to_string(), "zz".to_string()];
    assert_eq!(check_initials(initials.clone(), vec![]), Ok(()));
    let err = check_initials(initials.clone(), vec!["zz".to_string()]).unwrap_err();
    assert_eq!(err.command, initials);
    assert_eq!(err.missing, vec!["zz".to_string()]);
}

#[test]
fn pre_commit_needs_current_authors() {
    assert_eq!(check_author_state(&AuthorState::Present(vec!["ae"])), Ok(()));
    assert_eq!(
        check_author_state(&AuthorState::<u8>::Timeout(1_600_000_000)),
        Err(PreCommitError::StaleAuthor(1_600_000_000))
    );
    assert_eq!(check_author_state(&AuthorState::<u8>::NotSet), Err(PreCommitError::NoAuthor));
    assert!(AuthorState::<u8>::NotSet.is_none());
    assert!(!AuthorState::<u8>::Timeout(0).is_none());
}
