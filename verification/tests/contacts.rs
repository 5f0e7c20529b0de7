use lead_desk::contacts::{prepare_contact, prepare_contact_from_url, valid_email, AddContactInput, PreparedContact};
use lead_desk::error::AppError;
use lead_desk::web::WebUrl;

fn contact(kind: &str, value: &str, role: Option<&str>, source: &str) -> AddContactInput {
    AddContactInput { lead_id: "lead".into(), contact_type: kind.into(), value: value.into(), recipient_role: role.map(Into::into), source_url: source.into() }
}

fn err(r: Result<PreparedContact, AppError>) -> AppError {
    match r {
        Ok(_) => panic!("expected an error"),
        Err(e) => e,
    }
}

#[test]
fn email_plausibility() {
    assert!(valid_email("hello@example.test"));
    assert!(valid_email("a@b@c.d"));
    assert!(!valid_email("hello example@x.test"));
    assert!(!valid_email("hello.example.test"));
    assert!(!valid_email("@example.test"));
    assert!(!valid_email("a@localhost"));
    assert!(!valid_email("a@.example.test"));
    assert!(!valid_email("a@example.test."));
    assert!(valid_email(&format!("{}@x.test", "l".repeat(64))));
    assert!(!valid_email(&format!("{}@x.test", "l".repeat(65))));
    assert!(!valid_email(&format!("a@{}.test", "d".repeat(250))));
}

#[test]
fn contact_checks_come_in_order() {
    assert_eq!(err(prepare_contact(&contact("fax", "", None, ""))), AppError::InvalidLead("unknown contact type".into()));
    assert_eq!(err(prepare_contact(&contact("phone", "   ", None, ""))), AppError::InvalidLead("contact value is invalid".into()));
    assert_eq!(err(prepare_contact(&contact("role_email", "not-an-email", None, ""))), AppError::InvalidLead("email address is invalid".into()));
    assert_eq!(err(prepare_contact(&contact("phone", "+44 1225 000000", None, "contact page"))), AppError::InvalidLead("contact source URL is invalid".into()));
    assert_eq!(err(prepare_contact(&contact("phone", "+44 1225 000000", None, "ftp://a.test/"))), AppError::InvalidLead("contact source must use HTTP or HTTPS".into()));
}

#[test]
fn named_emails_carry_a_caution() {
    let named = prepare_contact(&contact("named_email", " jane@example.test ", Some("  Owner "), " https://example.test/team#jane ")).unwrap();
    assert_eq!(named.value, "jane@example.test");
    assert_eq!(named.recipient_role.as_deref(), Some("Owner"));
    assert_eq!(named.source_url, "https://example.test/team#jane");
    assert_eq!(named.caution_reason.as_deref(), Some("Named personal address: confirm that business outreach is appropriate."));
    let role = prepare_contact(&contact("role_email", "hello@example.test", Some("   "), "https://example.test/contact")).unwrap();
    assert_eq!(role.caution_reason, None);
    assert_eq!(role.recipient_role.as_deref(), Some(""));
}

#[test]
fn parsed_contact_source_is_kept_whole() {
    let parsed = WebUrl { scheme: "http".into(), host: Some("example.test".into()), serialization: "http://example.test/team#jane".into(), without_fragment: "http://example.test/team".into() };
    let c = prepare_contact_from_url(&contact("phone", " +44 1225 000000 ", None, "ignored"), Some(parsed)).unwrap();
    assert_eq!(c.value, "+44 1225 000000");
    assert_eq!(c.source_url, "http://example.test/team#jane");
    assert_eq!(c.recipient_role, None);
    let ftp = WebUrl { scheme: "ftp".into(), host: Some("a.test".into()), serialization: "ftp://a.test/".into(), without_fragment: "ftp://a.test/".into() };
    assert_eq!(err(prepare_contact_from_url(&contact("phone", "1", None, ""), Some(ftp))), AppError::InvalidLead("contact source must use HTTP or HTTPS".into()));
    assert_eq!(err(prepare_contact_from_url(&contact("phone", "1", None, ""), None)), AppError::InvalidLead("contact source URL is invalid".into()));
}
