use lead_desk::error::AppError;
use lead_desk::exports::{
    backup_retention, backups_to_prune, csv_header, csv_record, export_format, is_backup_file,
    new_timestamped_file_name, safe_csv, timestamped_file_name, ExportFormat, ExportLead,
};

#[test]
fn formula_cells_are_neutralised() {
    assert_eq!(safe_csv("=SUM(A1)"), "'=SUM(A1)");
    assert_eq!(safe_csv("  +44 1225"), "'  +44 1225");
    assert_eq!(safe_csv("-5"), "'-5");
    assert_eq!(safe_csv("@home"), "'@home");
    assert_eq!(safe_csv("Example Stays"), "Example Stays");
    assert_eq!(safe_csv(""), "");
    assert_eq!(safe_csv("a=b"), "a=b");
}

#[test]
fn export_formats() {
    assert_eq!(export_format("csv"), Ok(ExportFormat::Csv));
    assert_eq!(export_format("json"), Ok(ExportFormat::Json));
    assert_eq!(export_format("xlsx"), Err(AppError::InvalidLead("export format must be CSV or JSON".into())));
}

#[test]
fn csv_rows() {
    assert_eq!(csv_header(), vec!["Lead ID", "Company name", "Official website", "Country", "Language", "City or service area", "Status", "Qualification score", "Confidence", "Created", "Updated"]);
    let lead = ExportLead {
        id: "id-1".into(),
        company_name: "=HYPERLINK()".into(),
        official_website: "https://a.test".into(),
        country: "GB".into(),
        language: "en".into(),
        city_or_service_area: None,
        status: "qualified".into(),
        qualification_score: Some(-5),
        confidence_level: Some("high".into()),
        created_at: "2024-01-01".into(),
        updated_at: "2024-01-02".into(),
    };
    assert_eq!(csv_record(&lead), vec!["id-1", "'=HYPERLINK()", "https://a.test", "GB", "en", "", "qualified", "-5", "high", "2024-01-01", "2024-01-02"]);
}

#[test]
fn backup_retention_is_bounded() {
    assert_eq!(backup_retention("7"), 7);
    assert_eq!(backup_retention("0"), 1);
    assert_eq!(backup_retention("100"), 30);
    assert_eq!(backup_retention("-3"), 10);
    assert_eq!(backup_retention("many"), 10);
}

#[test]
fn backup_file_names() {
    assert_eq!(timestamped_file_name("isoplan-backup", "20240101-101010-123", "db"), "isoplan-backup-20240101-101010-123.db");
    let name = new_timestamped_file_name("isoplan-leads", "csv");
    assert!(name.starts_with("isoplan-leads-"));
    assert!(name.ends_with(".csv"));
    assert_eq!(name.len(), "isoplan-leads-".len() + 19 + ".csv".len());
    let stamp = &name["isoplan-leads-".len()..name.len() - ".csv".len()];
    for (i, c) in stamp.chars().enumerate() {
        if i == 8 || i == 15 {
            assert_eq!(c, '-');
        } else {
            assert!(c.is_ascii_digit(), "{stamp}");
        }
    }
    assert!(is_backup_file("a.db"));
    assert!(!is_backup_file(".db"));
    assert!(!is_backup_file("a.db.tmp"));
    assert!(!is_backup_file("notes.txt"));
    assert!(is_backup_file("x.y.db"));
}

#[test]
fn only_the_newest_backups_are_kept() {
    let names: Vec<String> = ["isoplan-backup-20240103.db", "readme.txt", "isoplan-backup-20240101.db", "isoplan-backup-20240104.db", "isoplan-backup-20240102.db"].iter().map(|s| s.to_string()).collect();
    assert_eq!(backups_to_prune(&names, 2), vec![2, 4]);
    assert_eq!(backups_to_prune(&names, 10), Vec::<usize>::new());
    assert_eq!(backups_to_prune(&names, 0), vec![0, 2, 3, 4]);
}
