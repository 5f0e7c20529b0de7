use lead_desk::error::AppError;
use lead_desk::workflow::{
    apply_status_change, check_status_request, draft_approved, draft_saved, gmail_opened,
    reply_recorded, send_confirmed, DraftProgress, LeadState, Outreach, PipelineStatus,
};

const ALL: [&str; 16] = ["discovered", "researching", "needs_review", "qualified", "rejected", "draft_ready", "approved", "gmail_opened", "contacted", "follow_up_due", "replied", "interested", "not_interested", "converted", "do_not_contact", "archived"];

fn lead(status: PipelineStatus, blocked: bool) -> LeadState {
    LeadState { status, do_not_contact: blocked }
}

#[test]
fn every_stage_name_round_trips() {
    for name in ALL {
        let status = PipelineStatus::parse(name).unwrap();
        assert_eq!(status.name(), name);
    }
    assert_eq!(PipelineStatus::parse("sent"), None);
}

#[test]
fn status_requests_are_checked() {
    assert_eq!(check_status_request("sent", &None), Err(AppError::InvalidLead("unknown pipeline status".into())));
    assert_eq!(check_status_request("do_not_contact", &Some("  ".into())), Err(AppError::InvalidLead("a do-not-contact reason is required".into())));
    assert_eq!(check_status_request("do_not_contact", &Some("asked us".into())), Ok(PipelineStatus::DoNotContact));
    assert_eq!(check_status_request("qualified", &None), Ok(PipelineStatus::Qualified));
}

#[test]
fn blocking_is_permanent() {
    let change = apply_status_change(lead(PipelineStatus::Qualified, false), PipelineStatus::DoNotContact).unwrap();
    assert!(change.block_domain);
    assert!(change.next.do_not_contact);
    assert_eq!(change.metadata_json, "{\"status\":\"do_not_contact\"}");
    assert!(matches!(apply_status_change(change.next, PipelineStatus::Qualified), Err(AppError::DoNotContact)));
    let again = apply_status_change(change.next, PipelineStatus::DoNotContact).unwrap();
    assert!(again.next.do_not_contact);
    let plain = apply_status_change(lead(PipelineStatus::Discovered, false), PipelineStatus::Archived).unwrap();
    assert!(!plain.block_domain);
    assert!(!plain.next.do_not_contact);
    assert_eq!(plain.metadata_json, "{\"status\":\"archived\"}");
}

#[test]
fn blocked_leads_get_no_drafts_or_replies() {
    let blocked = lead(PipelineStatus::Approved, true);
    assert!(matches!(draft_saved(blocked), Err(AppError::DoNotContact)));
    let current = Outreach { lead: blocked, draft: DraftProgress { approved: false, gmail_opened: false, sent_confirmed: false } };
    assert!(matches!(draft_approved(current), Err(AppError::DoNotContact)));
    assert!(matches!(reply_recorded(blocked), Err(AppError::DoNotContact)));
    assert_eq!(reply_recorded(lead(PipelineStatus::Contacted, false)).unwrap().status, PipelineStatus::Replied);
}

#[test]
fn gmail_open_is_not_a_send_and_editing_clears_approval() {
    let saved = draft_saved(lead(PipelineStatus::Qualified, false)).unwrap();
    assert_eq!(saved.lead.status, PipelineStatus::DraftReady);
    assert!(gmail_opened(saved).is_none());
    assert!(send_confirmed(saved, true).is_none());
    let approved = draft_approved(saved).unwrap();
    assert_eq!(approved.lead.status, PipelineStatus::Approved);
    let opened = gmail_opened(approved).unwrap();
    assert_eq!(opened.lead.status, PipelineStatus::GmailOpened);
    assert!(!opened.draft.sent_confirmed);
    let not_sent = send_confirmed(opened, false).unwrap().unwrap();
    assert_eq!(not_sent.lead.status, PipelineStatus::Approved);
    assert!(!not_sent.draft.sent_confirmed);
    let sent = send_confirmed(opened, true).unwrap().unwrap();
    assert_eq!(sent.lead.status, PipelineStatus::Contacted);
    assert!(sent.draft.sent_confirmed);
    let edited = draft_saved(sent.lead).unwrap();
    assert_eq!(edited.lead.status, PipelineStatus::DraftReady);
    assert_eq!(edited.draft, DraftProgress { approved: false, gmail_opened: false, sent_confirmed: false });
}

#[test]
fn blocked_leads_get_no_recorded_send() {
    let opened = Outreach { lead: lead(PipelineStatus::GmailOpened, true), draft: DraftProgress { approved: true, gmail_opened: true, sent_confirmed: false } };
    assert!(matches!(send_confirmed(opened, true), Some(Err(AppError::DoNotContact))));
    assert!(matches!(send_confirmed(opened, false), Some(Err(AppError::DoNotContact))));
    let not_opened = Outreach { lead: lead(PipelineStatus::Approved, true), draft: DraftProgress { approved: true, gmail_opened: false, sent_confirmed: false } };
    assert!(send_confirmed(not_opened, true).is_none());
}
