use lead_desk::error::{ensure_contactable, invalid, AppError};

#[test]
fn error_messages_match_their_display_text() {
    assert_eq!(AppError::AppDataUnavailable.message(), "application data directory is unavailable");
    assert_eq!(AppError::Database("disk I/O error".into()).message(), "database error: disk I/O error");
    assert_eq!(AppError::Io("denied".into()).message(), "filesystem error: denied");
    assert_eq!(AppError::Csv("x".into()).message(), "CSV export error: x");
    assert_eq!(AppError::Json("y".into()).message(), "JSON export error: y");
    assert_eq!(AppError::DatabaseBusy.message(), "the local database is temporarily busy");
    assert_eq!(invalid("bad").message(), "invalid lead: bad");
    assert_eq!(AppError::DuplicateLead.message(), "a lead with this official website already exists");
    assert_eq!(AppError::DoNotContact.message(), "this business is on the do-not-contact list");
}

#[test]
fn blocked_leads_are_refused() {
    assert_eq!(ensure_contactable(true), Err(AppError::DoNotContact));
    assert_eq!(ensure_contactable(false), Ok(()));
}
