use lead_desk::contacts::{prepare_contact, AddContactInput};
use lead_desk::drafts::{
    check_draft, choose_observation, compose_url, draft_record_id, follow_up_delay,
    follow_up_modifier, opt_out_setting_key, pending_follow_ups, render_template,
    require_email_contact, seed_draft, snooze_modifier, CheckedDraft, FollowUpRow, FollowUpSummary,
    ObservationCandidate, OutreachDraft, SaveDraftInput, TemplateFields,
};
use lead_desk::error::AppError;
use lead_desk::leads::{prepare_new_lead, CreateLeadInput};
use lead_desk::review::{check_evidence, AddEvidenceInput};
use lead_desk::workflow::{draft_approved, draft_saved, gmail_opened, send_confirmed, LeadState, PipelineStatus};

fn draft_input(language: &str, subject: &str, body: &str) -> SaveDraftInput {
    SaveDraftInput { id: None, lead_id: "lead".into(), contact_id: "contact".into(), language: language.into(), subject: subject.into(), body: body.into(), english_translation: None }
}

fn err(r: Result<CheckedDraft, AppError>) -> AppError {
    match r {
        Ok(_) => panic!("expected an error"),
        Err(e) => e,
    }
}

fn draft(approved: bool, sent: bool, recipient: Option<&str>, subject: &str, body: &str) -> OutreachDraft {
    OutreachDraft {
        id: "d".into(),
        lead_id: "l".into(),
        contact_id: Some("c".into()),
        recipient: recipient.map(Into::into),
        language: "en".into(),
        subject: subject.into(),
        body: body.into(),
        english_translation: None,
        approved_at: approved.then(|| "2024-01-01 10:00:00".to_string()),
        gmail_opened_at: None,
        sent_confirmed_at: sent.then(|| "2024-01-02 10:00:00".to_string()),
        updated_at: "2024-01-01 10:00:00".into(),
    }
}

fn gmail_reference(to: &str, su: &str, body: &str) -> String {
    let mut url = url::Url::parse("https://mail.google.com/mail/").unwrap();
    url.query_pairs_mut().append_pair("view", "cm").append_pair("fs", "1").append_pair("to", to).append_pair("su", su).append_pair("body", body);
    url.to_string()
}

fn candidate(claim: &str, direction: i64, classification: &str, confidence: &str, created_at: &str) -> ObservationCandidate {
    ObservationCandidate { claim: claim.into(), has_source: true, supports_qualification: direction, classification: classification.into(), confidence: confidence.into(), created_at: created_at.into() }
}

fn fields() -> TemplateFields {
    TemplateFields { company: "Example Stays".into(), observation: "Manages holiday properties".into(), fiverr_url: "https://www.fiverr.com/s/x".into(), sender_name: "Diptarko".into(), opt_out: "Reply STOP".into() }
}

#[test]
fn drafts_are_checked_in_order() {
    let body = "A body that is long enough to send.";
    assert_eq!(err(check_draft(&draft_input("de", "Hi", "x"))), AppError::InvalidLead("draft language is invalid".into()));
    assert_eq!(err(check_draft(&draft_input("en", " Hi ", body))), AppError::InvalidLead("draft subject or body length is invalid".into()));
    assert_eq!(err(check_draft(&draft_input("en", "Hello", "too short"))), AppError::InvalidLead("draft subject or body length is invalid".into()));
    assert_eq!(err(check_draft(&draft_input("fr", "  RE: your plans", body))), AppError::InvalidLead("an initial email must not pretend to be a reply".into()));
    let ok = check_draft(&draft_input("en", "  Floor plans ", &format!("  {body}\n"))).unwrap();
    assert_eq!(ok.subject, "Floor plans");
    assert_eq!(ok.body, body);
}

#[test]
fn drafts_need_an_email_contact() {
    assert_eq!(require_email_contact("role_email"), Ok(()));
    assert_eq!(require_email_contact("named_email"), Ok(()));
    assert_eq!(require_email_contact("phone"), Err(AppError::InvalidLead("Gmail drafts require a published business email".into())));
}

#[test]
fn draft_ids_are_kept_or_generated() {
    assert_eq!(draft_record_id(&Some("abc".into())), "abc");
    let fresh = draft_record_id(&None);
    assert_eq!(fresh.len(), 36);
    assert!(uuid::Uuid::parse_str(&fresh).is_ok());
    assert_eq!(fresh.chars().nth(14), Some('4'));
}

#[test]
fn compose_url_prefills_gmail() {
    let url = compose_url(&draft(true, false, Some("hello@example.test"), "Hi there", "a&b=c é")).unwrap();
    assert_eq!(url, "https://mail.google.com/mail/?view=cm&fs=1&to=hello%40example.test&su=Hi+there&body=a%26b%3Dc+%C3%A9");
    assert_eq!(url, gmail_reference("hello@example.test", "Hi there", "a&b=c é"));
    for (to, su, body) in [("x+y@a.test", "100% *sure*", "line1\nline2~!"), ("", "", "")] {
        assert_eq!(compose_url(&draft(true, false, Some(to), su, body)).unwrap(), gmail_reference(to, su, body));
    }
}

#[test]
fn compose_url_is_refused_until_approved_and_after_sending() {
    assert_eq!(compose_url(&draft(false, false, Some("a@b.test"), "s", "b")), Err(AppError::InvalidLead("approve the exact draft before opening Gmail".into())));
    assert_eq!(compose_url(&draft(true, true, Some("a@b.test"), "s", "b")), Err(AppError::InvalidLead("this draft is already confirmed sent".into())));
    assert_eq!(compose_url(&draft(true, false, None, "s", "b")), Err(AppError::InvalidLead("draft recipient is missing".into())));
}

#[test]
fn templates_fill_every_placeholder() {
    let rendered = render_template("Hi {{company}}: {{observation}} {{fiverr_url}} {{sender_name}} {{opt_out}} {{company}}", &fields());
    assert_eq!(rendered, "Hi Example Stays: Manages holiday properties https://www.fiverr.com/s/x Diptarko Reply STOP Example Stays");
    let seed = seed_draft("3D plans for {{company}}", "{{observation}}", &fields());
    assert_eq!(seed.subject, "3D plans for Example Stays");
    assert_eq!(seed.body, "Manages holiday properties");
    assert_eq!(opt_out_setting_key("fr"), "opt_out_line_fr");
    assert_eq!(opt_out_setting_key("en"), "opt_out_line_en");
}

#[test]
fn drafts_cite_the_best_evidence() {
    let cands = vec![
        candidate("AI guess", 1, "ai_inference", "high", "2024-03-01 00:00:00"),
        candidate("Against", -1, "verified_fact", "high", "2024-03-01 00:00:00"),
        candidate("Older high", 1, "verified_fact", "high", "2024-01-01 00:00:00"),
        candidate("Medium", 1, "extracted_statement", "medium", "2024-05-01 00:00:00"),
        candidate("Newer high", 1, "user_entered", "high", "2024-02-01 00:00:00"),
        candidate("Newer high twin", 1, "user_entered", "high", "2024-02-01 00:00:00"),
    ];
    assert_eq!(choose_observation(&cands), Some(4));
    let uncitable = vec![
        candidate("AI guess", 1, "ai_inference", "high", "2024-03-01 00:00:00"),
        candidate("Against", -1, "verified_fact", "high", "2024-03-01 00:00:00"),
    ];
    assert_eq!(choose_observation(&uncitable), None);
}

#[test]
fn drafts_never_cite_unsourced_evidence() {
    let mut unsourced = candidate("Own note", 1, "user_entered", "high", "2024-06-01 00:00:00");
    unsourced.has_source = false;
    assert_eq!(choose_observation(&vec![unsourced]), None);
    let mut newer_unsourced = candidate("Own note", 1, "user_entered", "high", "2024-06-01 00:00:00");
    newer_unsourced.has_source = false;
    let sourced = candidate("From the site", 1, "verified_fact", "low", "2024-01-01 00:00:00");
    assert_eq!(choose_observation(&vec![newer_unsourced, sourced]), Some(1));
}

#[test]
fn follow_up_scheduling() {
    assert_eq!(snooze_modifier(7).unwrap(), "+7 days");
    assert_eq!(snooze_modifier(0), Err(AppError::InvalidLead("snooze must be 1–30 days".into())));
    assert_eq!(snooze_modifier(31), Err(AppError::InvalidLead("snooze must be 1–30 days".into())));
    assert_eq!(follow_up_delay("12"), 12);
    assert_eq!(follow_up_delay("abc"), 5);
    assert_eq!(follow_up_delay("0"), 1);
    assert_eq!(follow_up_delay("99"), 30);
    assert_eq!(follow_up_modifier("5"), "+5 days");
}

fn follow_up(id: &str, status: &str, blocked: bool) -> FollowUpRow {
    FollowUpRow {
        summary: FollowUpSummary { id: id.into(), lead_id: "l".into(), company_name: "Example Stays".into(), due_at: "2024-01-01".into(), status: status.into(), recipient: None },
        lead_blocked: blocked,
    }
}

#[test]
fn blocked_and_closed_follow_ups_are_hidden() {
    let rows = vec![follow_up("a", "due", false), follow_up("b", "snoozed", false), follow_up("c", "cancelled", false), follow_up("d", "due", true)];
    let shown: Vec<String> = pending_follow_ups(rows).into_iter().map(|f| f.id).collect();
    assert_eq!(shown, vec!["a".to_string(), "b".to_string()]);
}

#[test]
fn manual_send_confirmation_creates_follow_up() {
    let lead = prepare_new_lead(&CreateLeadInput { company_name: "Example Stays".into(), official_website: "https://example.test".into(), country: "GB".into(), language: "en".into(), city_or_service_area: None }).unwrap();
    assert_eq!(lead.normalized_domain, "example.test");
    let evidence = check_evidence(&AddEvidenceInput { lead_id: "lead".into(), classification: "verified_fact".into(), category: "relevant_business_type".into(), claim: "Manages holiday properties".into(), supports_qualification: 1, confidence: "high".into(), source_url: Some("https://example.test/about".into()) }).unwrap();
    let contact = prepare_contact(&AddContactInput { lead_id: "lead".into(), contact_type: "role_email".into(), value: "hello@example.test".into(), recipient_role: Some("Reservations".into()), source_url: "https://example.test/contact".into() }).unwrap();
    let chosen = choose_observation(&vec![candidate(&evidence.claim, 1, "verified_fact", "high", "2024-01-01 10:00:00")]).unwrap();
    assert_eq!(chosen, 0);
    let seed = seed_draft("3D floor plans for {{company}}", "Hello {{company}} team, {{observation}}. {{fiverr_url}} {{sender_name}} {{opt_out}}", &fields());
    let checked = check_draft(&SaveDraftInput { id: None, lead_id: "lead".into(), contact_id: "contact".into(), language: "en".into(), subject: seed.subject, body: seed.body, english_translation: None }).unwrap();
    require_email_contact(&contact.contact_type).unwrap();
    let saved = draft_saved(LeadState { status: PipelineStatus::Qualified, do_not_contact: false }).unwrap();
    let approved = draft_approved(saved).unwrap();
    let url = compose_url(&OutreachDraft { id: "d".into(), lead_id: "lead".into(), contact_id: Some("c".into()), recipient: Some(contact.value.clone()), language: "en".into(), subject: checked.subject, body: checked.body, english_translation: None, approved_at: Some("now".into()), gmail_opened_at: None, sent_confirmed_at: None, updated_at: "now".into() }).unwrap();
    assert!(url.starts_with("https://mail.google.com/"));
    let opened = gmail_opened(approved).unwrap();
    let sent = send_confirmed(opened, true).unwrap().unwrap();
    assert_eq!(sent.lead.status, PipelineStatus::Contacted);
    assert!(sent.draft.sent_confirmed);
    let scheduled = FollowUpRow {
        summary: FollowUpSummary {
            id: "f1".into(),
            lead_id: "lead".into(),
            company_name: lead.company_name.clone(),
            due_at: "2024-01-06".into(),
            status: if sent.draft.sent_confirmed { "due".into() } else { "cancelled".into() },
            recipient: Some(contact.value.clone()),
        },
        lead_blocked: sent.lead.do_not_contact,
    };
    let follow_ups = pending_follow_ups(vec![scheduled]);
    assert_eq!(follow_ups.len(), 1);
    assert_eq!(follow_ups[0].company_name, "Example Stays");
    assert_eq!(follow_ups[0].status, "due");
    assert_eq!(follow_ups[0].recipient.as_deref(), Some("hello@example.test"));
}
