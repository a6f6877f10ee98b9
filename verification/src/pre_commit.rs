//! The decisions of `mit-pre-commit`: whether the configured authors allow a
//! commit, and which completion script was asked for.

use vstd::prelude::*;

verus! {

/// The state of a setting that expires: set, expired at a time (seconds
/// since the Unix epoch), or not set.
#[derive(Debug, PartialEq, Eq)]
pub enum AuthorState<T> {
    Present(T),
    Timeout(i64),
    NotSet,
}

impl<T> AuthorState<T> {
    /// Whether nothing is set.
    pub fn is_none(&self) -> (r: bool)
        ensures
            r == (*self is NotSet),
    {
        match self {
            AuthorState::NotSet => true,
            _ => false,
        }
    }
}

/// Why `mit-pre-commit` refuses a commit.
#[derive(Debug, Clone, Copy, PartialEq, Eq, Structural)]
pub enum PreCommitError {
    /// The authors expired at this time (seconds since the Unix epoch).
    StaleAuthor(i64),
    /// No authors are set.
    NoAuthor,
}

/// Allows a commit only while the co-author configuration is set and not
/// expired.
pub fn check_author_state<T>(state: &AuthorState<T>) -> (r: Result<(), PreCommitError>)
    ensures
        r == match *state {
            AuthorState::Timeout(time) => Err(PreCommitError::StaleAuthor(time)),
            AuthorState::NotSet => Err(PreCommitError::NoAuthor),
            AuthorState::Present(_) => Ok(()),
        },
{
    if let AuthorState::Timeout(time) = state {
        return Err(PreCommitError::StaleAuthor(*time));
    }
    if state.is_none() {
        return Err(PreCommitError::NoAuthor);
    }
    Ok(())
}

} // verus!
