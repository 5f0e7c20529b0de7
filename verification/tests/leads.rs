use lead_desk::error::AppError;
use lead_desk::web::WebUrl;
use lead_desk::leads::{
    check_lead_domain, domain_listed, lead_details_from_url, lead_write_failure, prepare_lead_update, prepare_new_lead, tally_statuses, CreateLeadInput,
    PreparedLead, UpdateLeadInput,
};

fn input(name: &str, site: &str, country: &str, language: &str, city: Option<&str>) -> CreateLeadInput {
    CreateLeadInput {
        company_name: name.into(),
        official_website: site.into(),
        country: country.into(),
        language: language.into(),
        city_or_service_area: city.map(Into::into),
    }
}

fn err(r: Result<PreparedLead, AppError>) -> AppError {
    match r {
        Ok(_) => panic!("expected an error"),
        Err(e) => e,
    }
}

#[test]
fn new_lead_is_normalised() {
    let lead = prepare_new_lead(&input("  Example Stays ", " https://WWW.Example.COM/rentals/#top ", "GB", "en", Some("  Bath "))).unwrap();
    assert_eq!(lead.company_name, "Example Stays");
    assert_eq!(lead.official_website, "https://www.example.com/rentals");
    assert_eq!(lead.normalized_domain, "example.com");
    assert_eq!(lead.duplicate_fingerprint, "domain:example.com");
    assert_eq!(lead.city_or_service_area.as_deref(), Some("Bath"));
}

#[test]
fn bare_domain_loses_its_trailing_slash() {
    let lead = prepare_new_lead(&input("Example Stays", "https://example.test", "GB", "en", Some("   "))).unwrap();
    assert_eq!(lead.official_website, "https://example.test");
    assert_eq!(lead.normalized_domain, "example.test");
    assert_eq!(lead.city_or_service_area, None);
}

#[test]
fn lead_checks_come_in_order() {
    assert_eq!(err(prepare_new_lead(&input("A", "nonsense", "DE", "de", None))), AppError::InvalidLead("company name must be 2–200 characters".into()));
    assert_eq!(err(prepare_new_lead(&input(&"x".repeat(201), "https://a.test", "GB", "en", None))), AppError::InvalidLead("company name must be 2–200 characters".into()));
    assert_eq!(err(prepare_new_lead(&input("Acme", "nonsense", "DE", "de", None))), AppError::InvalidLead("country must be GB, US, or FR".into()));
    assert_eq!(err(prepare_new_lead(&input("Acme", "nonsense", "FR", "de", None))), AppError::InvalidLead("language must be English or French".into()));
    assert_eq!(err(prepare_new_lead(&input("Acme", "nonsense", "FR", "fr", None))), AppError::InvalidLead("official website must be a valid URL".into()));
    assert_eq!(err(prepare_new_lead(&input("Acme", "ftp://files.test/", "US", "en", None))), AppError::InvalidLead("only HTTP and HTTPS websites are supported".into()));
}

#[test]
fn multibyte_names_are_measured_in_bytes() {
    // "é" is two bytes: enough for the two-byte minimum.
    assert!(prepare_new_lead(&input("é", "https://a.test", "GB", "en", None)).is_ok());
    // 100 two-byte characters are 200 bytes; 101 are too many.
    assert!(prepare_new_lead(&input(&"é".repeat(100), "https://a.test", "GB", "en", None)).is_ok());
    assert!(prepare_new_lead(&input(&"é".repeat(101), "https://a.test", "GB", "en", None)).is_err());
}

#[test]
fn update_uses_the_same_rules() {
    let update = UpdateLeadInput {
        id: "lead-1".into(),
        company_name: "Acme Lets".into(),
        official_website: "http://acme.test/a?b=c#d".into(),
        country: "US".into(),
        language: "en".into(),
        city_or_service_area: None,
    };
    let lead = prepare_lead_update(&update).unwrap();
    assert_eq!(lead.official_website, "http://acme.test/a?b=c");
    assert_eq!(lead.normalized_domain, "acme.test");
}

#[test]
fn write_failures_are_classified() {
    assert_eq!(lead_write_failure(true, "UNIQUE constraint failed".into()), AppError::DuplicateLead);
    assert_eq!(lead_write_failure(false, "disk full".into()), AppError::Database("disk full".into()));
}

#[test]
fn dashboard_counts_each_stage() {
    let statuses: Vec<String> = ["needs_review", "qualified", "qualified", "contacted", "converted", "archived", "draft_ready", "follow_up_due", "replied", "interested"].iter().map(|s| s.to_string()).collect();
    let c = tally_statuses(&statuses);
    assert_eq!(c.total, 10);
    assert_eq!(c.needs_review, 1);
    assert_eq!(c.qualified, 2);
    assert_eq!(c.drafts_ready, 1);
    assert_eq!(c.contacted, 1);
    assert_eq!(c.follow_ups_due, 1);
    assert_eq!(c.replied, 1);
    assert_eq!(c.interested, 1);
    assert_eq!(c.converted, 1);
    let sum = c.needs_review + c.qualified + c.drafts_ready + c.contacted + c.follow_ups_due + c.replied + c.interested + c.converted;
    assert!(sum <= c.total);
}

#[test]
fn hosts_differing_in_case_or_www_are_duplicates() {
    let a = prepare_new_lead(&input("Acme", "https://WWW.ACME.test", "GB", "en", None)).unwrap();
    let b = prepare_new_lead(&input("Acme", "https://acme.test/", "GB", "en", None)).unwrap();
    assert_eq!(a.duplicate_fingerprint, b.duplicate_fingerprint);
}

#[test]
fn parsed_website_is_normalised() {
    let parsed = WebUrl {
        scheme: "https".into(),
        host: Some("WWW.Example.COM".into()),
        serialization: "https://www.example.com/stays/#top".into(),
        without_fragment: "https://www.example.com/stays/".into(),
    };
    let lead = lead_details_from_url(" Example Stays ", "FR", "fr", &None, Some(parsed)).unwrap();
    assert_eq!(lead.company_name, "Example Stays");
    assert_eq!(lead.official_website, "https://www.example.com/stays");
    assert_eq!(lead.normalized_domain, "example.com");
    assert_eq!(lead.duplicate_fingerprint, "domain:example.com");
}

#[test]
fn parsed_website_refusals() {
    let invalid = |m: &str| AppError::InvalidLead(m.into());
    assert_eq!(err(lead_details_from_url("Example Stays", "GB", "en", &None, None)), invalid("official website must be a valid URL"));
    let ftp = WebUrl { scheme: "ftp".into(), host: Some("example.com".into()), serialization: "ftp://example.com/".into(), without_fragment: "ftp://example.com/".into() };
    assert_eq!(err(lead_details_from_url("Example Stays", "GB", "en", &None, Some(ftp))), invalid("only HTTP and HTTPS websites are supported"));
    let hostless = WebUrl { scheme: "http".into(), host: None, serialization: "http:/x".into(), without_fragment: "http:/x".into() };
    assert_eq!(err(lead_details_from_url("Example Stays", "GB", "en", &None, Some(hostless))), invalid("official website must include a domain"));
    let fine = WebUrl { scheme: "http".into(), host: Some("a.test".into()), serialization: "http://a.test/".into(), without_fragment: "http://a.test/".into() };
    assert_eq!(err(lead_details_from_url("E", "GB", "en", &None, Some(fine))), invalid("company name must be 2–200 characters"));
}

#[test]
fn blocked_domains_refuse_new_and_edited_leads() {
    let blocked = vec!["other.test".to_string(), "example.com".to_string()];
    assert!(domain_listed(&blocked, "example.com"));
    assert!(!domain_listed(&blocked, "example.co"));
    assert!(!domain_listed(&Vec::new(), "example.com"));
    let lead = prepare_new_lead(&input("Example Stays", "https://www.EXAMPLE.com/", "GB", "en", None)).unwrap();
    assert_eq!(check_lead_domain(&blocked, &lead), Err(AppError::DoNotContact));
    let other = prepare_new_lead(&input("Example Stays", "https://stays.example.com/", "GB", "en", None)).unwrap();
    assert_eq!(check_lead_domain(&blocked, &other), Ok(()));
    let edited = prepare_lead_update(&UpdateLeadInput {
        id: "lead".into(),
        company_name: "Other Stays".into(),
        official_website: "http://other.test/#x".into(),
        country: "US".into(),
        language: "en".into(),
        city_or_service_area: None,
    })
    .unwrap();
    assert_eq!(check_lead_domain(&blocked, &edited), Err(AppError::DoNotContact));
}
