//! The failures that a repository reports.

use vstd::prelude::*;

verus! {

/// Why a repository operation failed.
#[derive(Debug, PartialEq, Eq)]
pub enum RepositoryError {
    /// No item, or no label, has the id that was asked for.
    NotFound(i32),
    /// The backend failed for another reason; the text is its own message.
    Unexpected(String),
}

/// A `RepositoryError` with its message as a sequence of characters.
pub enum RepositoryErrorView {
    NotFound(i32),
    Unexpected(Seq<char>),
}

impl View for RepositoryError {
    type V = RepositoryErrorView;

    open spec fn view(&self) -> RepositoryErrorView {
        match self {
            RepositoryError::NotFound(id) => RepositoryErrorView::NotFound(*id),
            RepositoryError::Unexpected(message) => RepositoryErrorView::Unexpected(message@),
        }
    }
}

impl Clone for RepositoryError {
    fn clone(&self) -> (copy: RepositoryError)
        ensures
            copy == *self,
    {
        match self {
            RepositoryError::NotFound(id) => RepositoryError::NotFound(*id),
            RepositoryError::Unexpected(message) => RepositoryError::Unexpected(message.clone()),
        }
    }
}

/// What a failed backend call told: whether it missed a row it expected, and
/// the backend's own message.
#[derive(Debug, PartialEq, Eq)]
pub struct BackendFailure {
    pub row_not_found: bool,
    pub message: String,
}

impl Clone for BackendFailure {
    fn clone(&self) -> (copy: BackendFailure)
        ensures
            copy == *self,
    {
        BackendFailure { row_not_found: self.row_not_found, message: self.message.clone() }
    }
}

/// A `BackendFailure` with its message as a sequence of characters.
pub struct BackendFailureView {
    pub row_not_found: bool,
    pub message: Seq<char>,
}

impl View for BackendFailure {
    type V = BackendFailureView;

    open spec fn view(&self) -> BackendFailureView {
        BackendFailureView { row_not_found: self.row_not_found, message: self.message@ }
    }
}

/// The error that stands for a backend failure met while working on `id`.
///
/// A missing row is `NotFound` of the id at hand; with no id at hand, and for
/// every other failure, the message is passed on as `Unexpected`.
pub open spec fn error_of_failure(id: Option<i32>, failure: BackendFailureView)
    -> RepositoryErrorView {
    match id {
        Some(id) if failure.row_not_found => RepositoryErrorView::NotFound(id),
        _ => RepositoryErrorView::Unexpected(failure.message),
    }
}

impl RepositoryError {
    /// Maps a backend failure to the error that callers see.
    pub fn from_failure(id: Option<i32>, failure: BackendFailure) -> (error: RepositoryError)
        ensures
            error@ == error_of_failure(id, failure@),
    {
        match id {
            Some(id) => {
                if failure.row_not_found {
                    RepositoryError::NotFound(id)
                } else {
                    RepositoryError::Unexpected(failure.message)
                }
            },
            None => RepositoryError::Unexpected(failure.message),
        }
    }

    /// Maps an error of the database driver, met while working on `id`, to the
    /// error that callers see, never the driver's own type: `NotFound(id)`
    /// where the driver says that a row is missing, `Unexpected` with the
    /// driver's text for every other error.
    pub fn from_backend(id: i32, error: &sqlx::Error) -> (mapped: RepositoryError)
        ensures
            row_missing(*error) ==> mapped@ == RepositoryErrorView::NotFound(id),
            !row_missing(*error) ==> mapped@ is Unexpected,
    {
        RepositoryError::from_failure(Some(id), BackendFailure::describe(error))
    }
}

impl BackendFailure {
    /// Takes from a driver error what the repository reads of it: whether
    /// it says that a row is missing, and its text.
    pub fn describe(error: &sqlx::Error) -> (failure: BackendFailure)
        ensures
            failure.row_not_found == row_missing(*error),
    {
        BackendFailure { row_not_found: is_row_not_found(error), message: driver_message(error) }
    }
}

/// The error type of the database driver, carried through as an opaque value.
#[verifier::external_type_specification]
#[verifier::external_body]
pub struct ExDriverError(sqlx::Error);

/// Whether a driver error is the one by which `sqlx` says that a query which
/// expected a row found none: its variant `RowNotFound`.
pub uninterp spec fn row_missing(error: sqlx::Error) -> bool;

/// Tells whether a `sqlx::Error` is its `RowNotFound` variant, by matching
/// on it. The answer depends on the error alone; the contract gives it its
/// name and claims nothing else of it.
#[verifier::external_body]
fn is_row_not_found(error: &sqlx::Error) -> (missing: bool)
    ensures
        missing == row_missing(*error),
{
    matches!(error, sqlx::Error::RowNotFound)
}

/// The text that `sqlx::Error` displays, by `to_string`. For an error of the
/// operating system the text is the system's own, which differs from one
/// machine to the next, so the contract claims nothing of the text.
#[verifier::external_body]
fn driver_message(error: &sqlx::Error) -> String {
    error.to_string()
}

} // verus!
