//! The command-line arguments of `git-mit-relates-to`, as plain values.

use vstd::prelude::*;

use crate::duration::{duration_from_secs, duration_of_secs, spec_minutes_to_seconds};
use crate::shell::{spec_shell_from_name, Shell};
use crate::text::{law_parse_u64_of_text, nat_text, parse_u64, spec_parse_u64};

verus! {

/// Why an argument of `git-mit-relates-to` could not be read.
#[derive(Debug, Clone, Copy, PartialEq, Eq, Structural)]
pub enum GitRelatesToError {
    /// No issue number was given.
    NoRelatesToMessageSet,
    /// No timeout was given.
    NoTimeoutSet,
    /// The timeout is not a number of minutes.
    TimeoutNotANumber,
}

/// The values given on the command line: the issue the commit relates to,
/// the timeout in minutes, and the shell to print a completion script for.
pub struct Args {
    pub issue_number: Option<String>,
    pub timeout: Option<String>,
    pub completion: Option<String>,
}

/// Whether the timeout, where it is a number, still fits in a `u64` once
/// turned into seconds.
pub open spec fn timeout_fits(timeout: Option<String>) -> bool {
    match timeout {
        Some(t) => match spec_parse_u64(t@) {
            Some(m) => m * 60 <= u64::MAX,
            None => true,
        },
        None => true,
    }
}

/// What reading the timeout in seconds gives back.
pub open spec fn spec_timeout_seconds(timeout: Option<String>) -> Result<u64, GitRelatesToError> {
    match timeout {
        None => Err(GitRelatesToError::NoTimeoutSet),
        Some(t) => match spec_parse_u64(t@) {
            None => Err(GitRelatesToError::TimeoutNotANumber),
            Some(m) => Ok(spec_minutes_to_seconds(m as int) as u64),
        },
    }
}

impl Args {
    /// Arguments made of the given values.
    pub fn new(issue_number: Option<String>, timeout: Option<String>, completion: Option<String>) -> (r: Args)
        ensures
            r.issue_number == issue_number,
            r.timeout == timeout,
            r.completion == completion,
    {
        Args { issue_number, timeout, completion }
    }

    /// The issue the commit relates to; an error when none was given.
    pub fn issue_number(&self) -> (r: Result<&str, GitRelatesToError>)
        ensures
            match self.issue_number {
                None => r == Err::<&str, GitRelatesToError>(GitRelatesToError::NoRelatesToMessageSet),
                Some(v) => r matches Ok(s) && s@ == v@,
            },
    {
        match &self.issue_number {
            None => Err(GitRelatesToError::NoRelatesToMessageSet),
            Some(value) => Ok(value.as_str()),
        }
    }

    /// The timeout turned from minutes into seconds.
    pub fn timeout_seconds(&self) -> (r: Result<u64, GitRelatesToError>)
        requires
            timeout_fits(self.timeout),
        ensures
            r == spec_timeout_seconds(self.timeout),
            self.timeout is None ==> r == Err::<u64, GitRelatesToError>(GitRelatesToError::NoTimeoutSet),
            match self.timeout {
                Some(t) => match spec_parse_u64(t@) {
                    None => r == Err::<u64, GitRelatesToError>(GitRelatesToError::TimeoutNotANumber),
                    Some(m) => r == Ok::<u64, GitRelatesToError>((m * 60) as u64),
                },
                None => true,
            },
    {
        match &self.timeout {
            None => Err(GitRelatesToError::NoTimeoutSet),
            Some(value) => match parse_u64(value.as_str()) {
                None => Err(GitRelatesToError::TimeoutNotANumber),
                Some(minutes) => Ok(minutes * 60),
            },
        }
    }

    /// The timeout as a `Duration`.
    pub fn timeout(&self) -> (r: Result<std::time::Duration, GitRelatesToError>)
        requires
            timeout_fits(self.timeout),
        ensures
            match spec_timeout_seconds(self.timeout) {
                Ok(secs) => r == Ok::<std::time::Duration, GitRelatesToError>(duration_of_secs(secs)),
                Err(e) => r == Err::<std::time::Duration, GitRelatesToError>(e),
            },
            match self.timeout {
                Some(t) => match spec_parse_u64(t@) {
                    Some(m) => r == Ok::<std::time::Duration, GitRelatesToError>(
                        duration_of_secs((m * 60) as u64),
                    ),
                    None => true,
                },
                None => true,
            },
    {
        match self.timeout_seconds() {
            Ok(secs) => Ok(duration_from_secs(secs)),
            Err(e) => Err(e),
        }
    }

    /// The shell to print a completion script for: `None` when none was given
    /// or the name is not a shell's.
    pub fn completion(&self) -> (r: Option<Shell>)
        ensures
            r == match self.completion {
                Some(v) => spec_shell_from_name(v@),
                None => None,
            },
    {
        match &self.completion {
            Some(value) => Shell::from_name(value.as_str()),
            None => None,
        }
    }
}

/// A timeout given as the decimal text of a number of minutes reads back as
/// that many minutes, in seconds.
pub proof fn law_timeout_of_decimal_text(minutes: u64, text: String)
    requires
        text@ == nat_text(minutes as nat),
        minutes * 60 <= u64::MAX,
    ensures
        timeout_fits(Some(text)),
        spec_timeout_seconds(Some(text)) == Ok::<u64, GitRelatesToError>((minutes * 60) as u64),
{
    law_parse_u64_of_text(minutes);
}

} // verus!
