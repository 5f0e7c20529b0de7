use lead_desk::error::AppError;
use lead_desk::web::WebUrl;
use lead_desk::review::{
    category_weight, check_evidence, check_note, confidence_strength, score_evidence,
    source_url_from_parsed, strongest_direction, validate_source_url, AddEvidenceInput, CheckedEvidence, EvidenceRow,
};

fn evidence(classification: &str, category: &str, claim: &str, direction: i8, confidence: &str, source: Option<&str>) -> AddEvidenceInput {
    AddEvidenceInput {
        lead_id: "lead".into(),
        classification: classification.into(),
        category: category.into(),
        claim: claim.into(),
        supports_qualification: direction,
        confidence: confidence.into(),
        source_url: source.map(Into::into),
    }
}

fn err(r: Result<CheckedEvidence, AppError>) -> AppError {
    match r {
        Ok(_) => panic!("expected an error"),
        Err(e) => e,
    }
}

fn row(category: &str, direction: i64, confidence: &str) -> EvidenceRow {
    EvidenceRow { category: category.into(), supports_qualification: direction, confidence: confidence.into() }
}

#[test]
fn category_weights_follow_the_scoring_model() {
    assert_eq!(category_weight("relevant_business_type"), 20);
    assert_eq!(category_weight("portfolio_size"), 15);
    assert_eq!(category_weight("public_business_contact"), 10);
    assert_eq!(category_weight("no_floor_plan_found"), 15);
    assert_eq!(category_weight("weak_2d_floor_plan"), 15);
    assert_eq!(category_weight("multi_unit"), 15);
    assert_eq!(category_weight("premium_marketing"), 5);
    assert_eq!(category_weight("repeat_work_likelihood"), 10);
    assert_eq!(category_weight("geographic_match"), 5);
    assert_eq!(category_weight("excellent_3d_floor_plans"), 25);
    assert_eq!(category_weight("no_lawful_contact"), 25);
    assert_eq!(category_weight("individual_host"), 40);
    assert_eq!(category_weight("something_else"), 0);
}

#[test]
fn confidence_strengths() {
    assert_eq!(confidence_strength("high"), 3);
    assert_eq!(confidence_strength("medium"), 2);
    assert_eq!(confidence_strength("low"), 1);
    assert_eq!(confidence_strength("unknown"), 1);
}

#[test]
fn evidence_is_checked_in_order() {
    assert_eq!(err(check_evidence(&evidence("guess", "x", "", 5, "?", None))), AppError::InvalidLead("unknown evidence classification".into()));
    assert_eq!(err(check_evidence(&evidence("verified_fact", "x", "", 5, "?", None))), AppError::InvalidLead("unknown scoring category".into()));
    assert_eq!(err(check_evidence(&evidence("verified_fact", "multi_unit", "", 2, "?", None))), AppError::InvalidLead("evidence direction must be -1, 0, or 1".into()));
    assert_eq!(err(check_evidence(&evidence("verified_fact", "multi_unit", "", 1, "?", None))), AppError::InvalidLead("unknown evidence confidence".into()));
    assert_eq!(err(check_evidence(&evidence("verified_fact", "multi_unit", " abc  ", 1, "high", None))), AppError::InvalidLead("evidence must be 5–2,000 characters".into()));
    assert_eq!(err(check_evidence(&evidence("verified_fact", "multi_unit", "Twelve cottages", 1, "high", None))), AppError::InvalidLead("this evidence type requires an exact source URL".into()));
    assert_eq!(err(check_evidence(&evidence("verified_fact", "multi_unit", "Twelve cottages", 1, "high", Some("not a url")))), AppError::InvalidLead("source must be a valid URL".into()));
    assert_eq!(err(check_evidence(&evidence("verified_fact", "multi_unit", "Twelve cottages", 1, "high", Some("mailto:a@b.test")))), AppError::InvalidLead("source must use HTTP or HTTPS".into()));
}

#[test]
fn accepted_evidence_is_normalised() {
    let checked = check_evidence(&evidence("verified_fact", "multi_unit", "  Twelve cottages ", 1, "medium", Some(" https://a.test/units#list "))).unwrap();
    assert_eq!(checked.claim, "Twelve cottages");
    assert_eq!(checked.normalized_source.as_deref(), Some("https://a.test/units"));
    assert_eq!(checked.signal_strength, Some(2));
    let note = check_evidence(&evidence("user_entered", "portfolio_size", "About 20 homes", -1, "low", None)).unwrap();
    assert_eq!(note.normalized_source, None);
    assert_eq!(note.signal_strength, None);
    let negative = check_evidence(&evidence("missing_information", "weak_2d_floor_plan", "No plan shown", 0, "high", None)).unwrap();
    assert_eq!(negative.signal_strength, None);
}

#[test]
fn source_urls_lose_their_fragment() {
    assert_eq!(validate_source_url("  http://a.test/x?y=1#z ").unwrap(), "http://a.test/x?y=1");
}

#[test]
fn notes_are_trimmed_and_bounded() {
    assert_eq!(check_note("  call back  ").unwrap(), "call back");
    assert_eq!(check_note("   "), Err(AppError::InvalidLead("note must be 1–4,000 characters".into())));
    assert!(check_note(&"n".repeat(4000)).is_ok());
    assert!(check_note(&"n".repeat(4001)).is_err());
}

#[test]
fn score_adds_each_category_once() {
    let rows = vec![
        row("relevant_business_type", 1, "high"),
        row("portfolio_size", 1, "medium"),
        row("excellent_3d_floor_plans", -1, "high"),
        row("multi_unit", 1, "high"),
        row("relevant_business_type", 0, "low"),
    ];
    let score = score_evidence(&rows);
    assert_eq!(score.qualification_score, 25);
    assert_eq!(score.confidence_level, "high");
    assert_eq!(score.score_explanation, "relevant business type: +20; portfolio size: +15; excellent 3d floor plans: -25; multi unit: +15");
}

#[test]
fn score_is_clamped() {
    assert_eq!(score_evidence(&vec![row("individual_host", -1, "high")]).qualification_score, 0);
    let all: Vec<EvidenceRow> = ["relevant_business_type", "portfolio_size", "public_business_contact", "no_floor_plan_found", "weak_2d_floor_plan", "multi_unit", "premium_marketing", "geographic_match", "repeat_work_likelihood"].iter().map(|c| row(c, 1, "low")).collect();
    let score = score_evidence(&all);
    assert_eq!(score.qualification_score, 100);
    assert_eq!(score.confidence_level, "medium");
}

#[test]
fn later_evidence_of_equal_strength_wins() {
    let rows = vec![row("multi_unit", 1, "low"), row("multi_unit", -1, "low"), row("multi_unit", 0, "low")];
    assert_eq!(strongest_direction(&rows, "multi_unit"), Some(-1));
    let score = score_evidence(&rows);
    assert_eq!(score.qualification_score, 0);
    assert_eq!(score.score_explanation, "multi unit: -15");
    assert_eq!(score.confidence_level, "medium");
}

#[test]
fn unknown_categories_are_explained_but_do_not_count() {
    let rows = vec![row("other_thing", 5, "low"), row("geographic_match", 1, "low")];
    let score = score_evidence(&rows);
    assert_eq!(score.qualification_score, 5);
    assert_eq!(score.score_explanation, "other thing: +0; geographic match: +5");
    assert_eq!(score.confidence_level, "low");
    assert_eq!(score_evidence(&vec![]).score_explanation, "");
}

#[test]
fn against_evidence_never_raises_the_score() {
    let mut rows = vec![row("relevant_business_type", 1, "high"), row("multi_unit", 1, "high")];
    let before = score_evidence(&rows).qualification_score;
    rows.push(row("no_lawful_contact", -1, "high"));
    let after = score_evidence(&rows).qualification_score;
    assert!(after <= before);
    assert_eq!(after, 10);
}

#[test]
fn parsed_source_loses_its_fragment() {
    let parsed = WebUrl { scheme: "https".into(), host: Some("example.test".into()), serialization: "https://example.test/a#b".into(), without_fragment: "https://example.test/a".into() };
    assert_eq!(source_url_from_parsed(Some(parsed)).unwrap(), "https://example.test/a");
    let mailto = WebUrl { scheme: "mailto".into(), host: None, serialization: "mailto:a@b.c".into(), without_fragment: "mailto:a@b.c".into() };
    assert_eq!(source_url_from_parsed(Some(mailto)), Err(AppError::InvalidLead("source must use HTTP or HTTPS".into())));
    assert_eq!(source_url_from_parsed(None), Err(AppError::InvalidLead("source must be a valid URL".into())));
}

#[test]
fn repeated_evidence_keeps_the_score() {
    let once = vec![row("relevant_business_type", 1, "high"), row("multi_unit", -1, "low")];
    let twice = vec![
        row("relevant_business_type", 1, "high"),
        row("multi_unit", -1, "low"),
        row("relevant_business_type", 1, "medium"),
        row("multi_unit", -1, "high"),
    ];
    assert_eq!(score_evidence(&once).qualification_score, score_evidence(&twice).qualification_score);
}
