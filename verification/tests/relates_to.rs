use git_mit::relates_to::{Args, GitRelatesToError};
use git_mit::shell::Shell;
use quickcheck::{QuickCheck, TestResult};

fn args_with_timeout(timeout: &str) -> Args {
    Args::new(Some("[#12321513]".to_string()), Some(timeout.to_string()), None)
}

#[test]
fn completion_is_none_by_default() {
    let args = Args::new(None, None, None);
    assert!(args.completion().is_none());
}

#[test]
fn completion_with_defined_value_returns() {
    for shell in [Shell::Bash, Shell::Elvish, Shell::Fish, Shell::PowerShell, Shell::Zsh] {
        let args = Args::new(None, None, Some(shell.name().to_string()));
        assert_eq!(args.completion(), Some(shell));
    }
}

#[test]
fn completion_with_unknown_value_is_none() {
    let args = Args::new(None, None, Some("tcsh".to_string()));
    assert_eq!(args.completion(), None);
    let args = Args::new(None, None, Some("Bash".to_string()));
    assert_eq!(args.completion(), None);
}

#[test]
fn issue_number_is_given_back() {
    let args = Args::new(Some("[#12321513]".to_string()), None, None);
    assert_eq!(args.issue_number().unwrap(), "[#12321513]");
}

#[test]
fn issue_number_missing_is_an_error() {
    let args = Args::new(None, Some("60".to_string()), None);
    assert_eq!(args.issue_number(), Err(GitRelatesToError::NoRelatesToMessageSet));
}

#[test]
fn timeout_is_in_seconds() {
    assert_eq!(args_with_timeout("60").timeout_seconds(), Ok(3600));
    assert_eq!(args_with_timeout("+5").timeout_seconds(), Ok(300));
    assert_eq!(args_with_timeout("0").timeout_seconds(), Ok(0));
    assert_eq!(args_with_timeout("5").timeout().unwrap().as_secs(), 300);
}

#[test]
fn timeout_missing_is_an_error() {
    let args = Args::new(None, None, None);
    assert_eq!(args.timeout_seconds(), Err(GitRelatesToError::NoTimeoutSet));
    assert_eq!(args.timeout(), Err(GitRelatesToError::NoTimeoutSet));
}

#[test]
fn timeout_not_a_number_is_an_error() {
    for text in ["", "+", "-5", "five", " 5", "5 ", "1.5", "18446744073709551616"] {
        assert_eq!(
            args_with_timeout(text).timeout_seconds(),
            Err(GitRelatesToError::TimeoutNotANumber),
            "{:?}",
            text
        );
    }
}

#[test]
fn timeout_will_be_ok_with_valid_u64() {
    fn prop(timeout: u64) -> TestResult {
        if timeout > u64::MAX / 60 {
            return TestResult::discard();
        }
        TestResult::from_bool(
            Some(timeout * 60) == args_with_timeout(&format!("{}", timeout)).timeout_seconds().ok(),
        )
    }
    QuickCheck::new().quickcheck(prop as fn(u64) -> TestResult);
}

#[test]
fn timeout_will_fail_without_valid_u64() {
    fn prop(timeout: String) -> TestResult {
        if timeout.parse::<u64>().is_ok() {
            return TestResult::discard();
        }
        TestResult::from_bool(args_with_timeout(&timeout).timeout_seconds().is_err())
    }
    QuickCheck::new().quickcheck(prop as fn(String) -> TestResult);
}
