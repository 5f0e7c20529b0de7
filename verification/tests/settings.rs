use lead_desk::error::AppError;
use lead_desk::web::WebUrl;
use lead_desk::settings::{check_fiverr_url, check_setting, is_editable_key, validate_number};

#[test]
fn numbers_are_checked_against_bounds() {
    assert_eq!(validate_number("5", 1, 10), Ok(()));
    assert_eq!(validate_number("+10", 1, 10), Ok(()));
    assert_eq!(validate_number("11", 1, 10), Err(AppError::InvalidLead("setting must be between 1 and 10".into())));
    assert_eq!(validate_number("-3", -2, 30), Err(AppError::InvalidLead("setting must be between -2 and 30".into())));
    assert_eq!(validate_number("five", 1, 10), Err(AppError::InvalidLead("setting must be a number".into())));
}

#[test]
fn settings_are_validated_per_key() {
    assert!(is_editable_key("sender_name"));
    assert!(!is_editable_key("database_path"));
    assert_eq!(check_setting("database_path", "x"), Err(AppError::InvalidLead("unknown setting".into())));
    assert_eq!(check_setting("sender_name", &"s".repeat(2001)), Err(AppError::InvalidLead("setting is too long".into())));
    assert_eq!(check_setting("sender_name", "  Diptarko  ").unwrap(), "Diptarko");
    assert_eq!(check_setting("fiverr_gig_url", "not a url"), Err(AppError::InvalidLead("Fiverr Gig URL is invalid".into())));
    assert_eq!(check_setting("fiverr_gig_url", "http://www.fiverr.com/gig"), Err(AppError::InvalidLead("use an HTTPS fiverr.com Gig URL".into())));
    assert_eq!(check_setting("fiverr_gig_url", "https://example.com/gig"), Err(AppError::InvalidLead("use an HTTPS fiverr.com Gig URL".into())));
    assert_eq!(check_setting("fiverr_gig_url", " https://www.fiverr.com/s/abc ").unwrap(), "https://www.fiverr.com/s/abc");
    assert_eq!(check_setting("normal_lead_limit", "0"), Err(AppError::InvalidLead("setting must be between 1 and 10".into())));
    assert_eq!(check_setting("follow_up_delay_days", "30").unwrap(), "30");
    assert_eq!(check_setting("backup_retention_count", "31"), Err(AppError::InvalidLead("setting must be between 1 and 30".into())));
    assert_eq!(check_setting("second_follow_up_enabled", "yes"), Err(AppError::InvalidLead("invalid yes/no value".into())));
    assert_eq!(check_setting("second_follow_up_enabled", " false ").unwrap(), "false");
}

#[test]
fn parsed_fiverr_addresses() {
    let gig = |scheme: &str, host: Option<&str>| WebUrl { scheme: scheme.into(), host: host.map(Into::into), serialization: String::new(), without_fragment: String::new() };
    assert_eq!(check_fiverr_url(Some(gig("https", Some("www.fiverr.com")))), Ok(()));
    assert_eq!(check_fiverr_url(Some(gig("https", Some("fiverr.com.evil.test")))), Err(AppError::InvalidLead("use an HTTPS fiverr.com Gig URL".into())));
    assert_eq!(check_fiverr_url(Some(gig("http", Some("fiverr.com")))), Err(AppError::InvalidLead("use an HTTPS fiverr.com Gig URL".into())));
    assert_eq!(check_fiverr_url(Some(gig("https", None))), Err(AppError::InvalidLead("use an HTTPS fiverr.com Gig URL".into())));
    assert_eq!(check_fiverr_url(None), Err(AppError::InvalidLead("Fiverr Gig URL is invalid".into())));
}
