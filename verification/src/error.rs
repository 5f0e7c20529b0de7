//! The error type shared by every operation of the lead desk.

use vstd::prelude::*;
use crate::text::concat_str;

verus! {

/// Why an operation of the lead desk failed.
///
/// Failures of the storage layer (database, filesystem, CSV and JSON
/// writers) carry the message that the failing component reported.
#[derive(Debug, PartialEq, Eq)]
pub enum AppError {
    AppDataUnavailable,
    Database(String),
    Io(String),
    Csv(String),
    Json(String),
    DatabaseBusy,
    InvalidLead(String),
    DuplicateLead,
    DoNotContact,
}

/// An [`AppError`] with its messages taken as character sequences.
pub enum ErrorView {
    AppDataUnavailable,
    Database(Seq<char>),
    Io(Seq<char>),
    Csv(Seq<char>),
    Json(Seq<char>),
    DatabaseBusy,
    InvalidLead(Seq<char>),
    DuplicateLead,
    DoNotContact,
}

impl View for AppError {
    type V = ErrorView;

    open spec fn view(&self) -> ErrorView {
        match self {
            AppError::AppDataUnavailable => ErrorView::AppDataUnavailable,
            AppError::Database(m) => ErrorView::Database(m@),
            AppError::Io(m) => ErrorView::Io(m@),
            AppError::Csv(m) => ErrorView::Csv(m@),
            AppError::Json(m) => ErrorView::Json(m@),
            AppError::DatabaseBusy => ErrorView::DatabaseBusy,
            AppError::InvalidLead(m) => ErrorView::InvalidLead(m@),
            AppError::DuplicateLead => ErrorView::DuplicateLead,
            AppError::DoNotContact => ErrorView::DoNotContact,
        }
    }
}

/// The outcome of an operation, with the value and the error taken by their views.
pub open spec fn outcome<T: View>(r: Result<T, AppError>) -> Result<T::V, ErrorView> {
    match r {
        Ok(v) => Ok(v@),
        Err(e) => Err(e@),
    }
}

/// The text shown to the user for an error.
pub open spec fn error_message(e: ErrorView) -> Seq<char> {
    match e {
        ErrorView::AppDataUnavailable => "application data directory is unavailable"@,
        ErrorView::Database(m) => "database error: "@ + m,
        ErrorView::Io(m) => "filesystem error: "@ + m,
        ErrorView::Csv(m) => "CSV export error: "@ + m,
        ErrorView::Json(m) => "JSON export error: "@ + m,
        ErrorView::DatabaseBusy => "the local database is temporarily busy"@,
        ErrorView::InvalidLead(m) => "invalid lead: "@ + m,
        ErrorView::DuplicateLead => "a lead with this official website already exists"@,
        ErrorView::DoNotContact => "this business is on the do-not-contact list"@,
    }
}

impl AppError {
    /// The text shown to the user for this error.
    pub fn message(&self) -> (r: String)
        ensures
            r@ == error_message(self@),
    {
        match self {
            AppError::AppDataUnavailable => "application data directory is unavailable".to_owned(),
            AppError::Database(m) => concat_str("database error: ", m.as_str()),
            AppError::Io(m) => concat_str("filesystem error: ", m.as_str()),
            AppError::Csv(m) => concat_str("CSV export error: ", m.as_str()),
            AppError::Json(m) => concat_str("JSON export error: ", m.as_str()),
            AppError::DatabaseBusy => "the local database is temporarily busy".to_owned(),
            AppError::InvalidLead(m) => concat_str("invalid lead: ", m.as_str()),
            AppError::DuplicateLead => "a lead with this official website already exists".to_owned(),
            AppError::DoNotContact => "this business is on the do-not-contact list".to_owned(),
        }
    }
}

/// A rejected input, explained by `reason`.
pub fn invalid(reason: &str) -> (e: AppError)
    ensures
        e@ == ErrorView::InvalidLead(reason@),
{
    AppError::InvalidLead(reason.to_owned())
}

/// Refuses any action on a lead that is on the do-not-contact list.
pub fn ensure_contactable(blocked: bool) -> (r: Result<(), AppError>)
    ensures
        blocked ==> r == Err::<(), AppError>(AppError::DoNotContact),
        !blocked ==> r is Ok,
{
    if blocked {
        Err(AppError::DoNotContact)
    } else {
        Ok(())
    }
}

} // verus!
