//! The outreach pipeline: the stages of a lead, the do-not-contact block, and
//! the life of an outreach draft from saving to a confirmed send.

use vstd::prelude::*;
use crate::error::{AppError, ErrorView, invalid};
use crate::text::{concat_str, opt_seq, str_eq, trim_nonblank, trimmed_nonblank};

verus! {

/// The stage of a lead in the pipeline.
#[derive(Debug, Clone, Copy, PartialEq, Eq, Structural)]
pub enum PipelineStatus {
    Discovered,
    Researching,
    NeedsReview,
    Qualified,
    Rejected,
    DraftReady,
    Approved,
    GmailOpened,
    Contacted,
    FollowUpDue,
    Replied,
    Interested,
    NotInterested,
    Converted,
    DoNotContact,
    Archived,
}

/// The name under which a stage is stored.
pub open spec fn status_name(s: PipelineStatus) -> Seq<char> {
    match s {
        PipelineStatus::Discovered => "discovered"@,
        PipelineStatus::Researching => "researching"@,
        PipelineStatus::NeedsReview => "needs_review"@,
        PipelineStatus::Qualified => "qualified"@,
        PipelineStatus::Rejected => "rejected"@,
        PipelineStatus::DraftReady => "draft_ready"@,
        PipelineStatus::Approved => "approved"@,
        PipelineStatus::GmailOpened => "gmail_opened"@,
        PipelineStatus::Contacted => "contacted"@,
        PipelineStatus::FollowUpDue => "follow_up_due"@,
        PipelineStatus::Replied => "replied"@,
        PipelineStatus::Interested => "interested"@,
        PipelineStatus::NotInterested => "not_interested"@,
        PipelineStatus::Converted => "converted"@,
        PipelineStatus::DoNotContact => "do_not_contact"@,
        PipelineStatus::Archived => "archived"@,
    }
}

impl PipelineStatus {
    /// The name under which this stage is stored.
    pub fn name(&self) -> (r: String)
        ensures
            r@ == status_name(*self),
    {
        match self {
            PipelineStatus::Discovered => "discovered".to_owned(),
            PipelineStatus::Researching => "researching".to_owned(),
            PipelineStatus::NeedsReview => "needs_review".to_owned(),
            PipelineStatus::Qualified => "qualified".to_owned(),
            PipelineStatus::Rejected => "rejected".to_owned(),
            PipelineStatus::DraftReady => "draft_ready".to_owned(),
            PipelineStatus::Approved => "approved".to_owned(),
            PipelineStatus::GmailOpened => "gmail_opened".to_owned(),
            PipelineStatus::Contacted => "contacted".to_owned(),
            PipelineStatus::FollowUpDue => "follow_up_due".to_owned(),
            PipelineStatus::Replied => "replied".to_owned(),
            PipelineStatus::Interested => "interested".to_owned(),
            PipelineStatus::NotInterested => "not_interested".to_owned(),
            PipelineStatus::Converted => "converted".to_owned(),
            PipelineStatus::DoNotContact => "do_not_contact".to_owned(),
            PipelineStatus::Archived => "archived".to_owned(),
        }
    }

    /// The stage stored under `name`, if any.
    pub fn parse(name: &str) -> (r: Option<PipelineStatus>)
        ensures
            match r {
                Some(s) => status_name(s) == name@,
                None => forall|s: PipelineStatus| status_name(s) != name@,
            },
    {
        let all = [
            PipelineStatus::Discovered,
            PipelineStatus::Researching,
            PipelineStatus::NeedsReview,
            PipelineStatus::Qualified,
            PipelineStatus::Rejected,
            PipelineStatus::DraftReady,
            PipelineStatus::Approved,
            PipelineStatus::GmailOpened,
            PipelineStatus::Contacted,
            PipelineStatus::FollowUpDue,
            PipelineStatus::Replied,
            PipelineStatus::Interested,
            PipelineStatus::NotInterested,
            PipelineStatus::Converted,
            PipelineStatus::DoNotContact,
            PipelineStatus::Archived,
        ];
        let mut i: usize = 0;
        while i < 16
            invariant
                i <= 16,
                all@.len() == 16,
                forall|s: PipelineStatus| #![trigger status_name(s)] all@.contains(s),
                forall|k: int| 0 <= k < i ==> status_name(#[trigger] all@[k]) != name@,
            decreases 16 - i,
        {
            let s = all[i];
            let n = s.name();
            if str_eq(n.as_str(), name) {
                return Some(s);
            }
            i += 1;
        }
        None
    }
}

/// What the pipeline knows of a lead: its stage and whether it is blocked.
#[derive(Debug, Clone, Copy, PartialEq, Eq, Structural)]
pub struct LeadState {
    pub status: PipelineStatus,
    pub do_not_contact: bool,
}

/// The check of a requested stage change before the lead is read.
pub open spec fn status_request_check(status: Seq<char>, reason: Option<Seq<char>>) -> Result<
    PipelineStatus,
    ErrorView,
> {
    if forall|s: PipelineStatus| status_name(s) != status {
        Err(ErrorView::InvalidLead("unknown pipeline status"@))
    } else {
        let s = choose|s: PipelineStatus| status_name(s) == status;
        if s == PipelineStatus::DoNotContact && trimmed_nonblank(reason) is None {
            Err(ErrorView::InvalidLead("a do-not-contact reason is required"@))
        } else {
            Ok(s)
        }
    }
}

/// Checks a requested stage change: the stage must exist, and blocking a
/// lead needs a reason.
pub fn check_status_request(status: &str, reason: &Option<String>) -> (r: Result<
    PipelineStatus,
    AppError,
>)
    ensures
        match r {
            Ok(s) => status_request_check(status@, opt_seq(*reason)) == Ok::<PipelineStatus, ErrorView>(s),
            Err(e) => status_request_check(status@, opt_seq(*reason)) == Err::<PipelineStatus, ErrorView>(e@),
        },
{
    let s = match PipelineStatus::parse(status) {
        None => return Err(invalid("unknown pipeline status")),
        Some(s) => s,
    };
    proof {
        let c = choose|x: PipelineStatus| status_name(x) == status@;
        assert(status_name(c) == status@);
        lemma_status_name_injective(c, s);
    }
    if s == PipelineStatus::DoNotContact && trim_nonblank(reason).is_none() {
        return Err(invalid("a do-not-contact reason is required"));
    }
    Ok(s)
}

/// Different stages are stored under different names.
pub proof fn lemma_status_name_injective(a: PipelineStatus, b: PipelineStatus)
    requires
        status_name(a) == status_name(b),
    ensures
        a == b,
{
    reveal_strlit("discovered");
    reveal_strlit("researching");
    reveal_strlit("needs_review");
    reveal_strlit("qualified");
    reveal_strlit("rejected");
    reveal_strlit("draft_ready");
    reveal_strlit("approved");
    reveal_strlit("gmail_opened");
    reveal_strlit("contacted");
    reveal_strlit("follow_up_due");
    reveal_strlit("replied");
    reveal_strlit("interested");
    reveal_strlit("not_interested");
    reveal_strlit("converted");
    reveal_strlit("do_not_contact");
    reveal_strlit("archived");
    let (x, y) = (status_name(a), status_name(b));
    assert(x.len() == y.len());
    assert(x[0] == y[0]);
    assert(x[2] == y[2]);
    assert(x[3] == y[3]);
}

/// What a stage change writes.
pub struct StatusChange {
    /// The lead after the change.
    pub next: LeadState,
    /// Whether the lead's domain goes on the do-not-contact list.
    pub block_domain: bool,
    /// The audit record of the change, `{"status":"<name>"}`.
    pub metadata_json: String,
}

/// The effect of a checked stage change on a stored lead.
pub open spec fn status_change_of(lead: LeadState, status: PipelineStatus) -> Result<
    LeadState,
    ErrorView,
> {
    if lead.do_not_contact && status != PipelineStatus::DoNotContact {
        Err(ErrorView::DoNotContact)
    } else {
        Ok(
            LeadState {
                status,
                do_not_contact: lead.do_not_contact || status == PipelineStatus::DoNotContact,
            },
        )
    }
}

/// Applies a checked stage change to a stored lead: a blocked lead may only
/// be blocked again, and blocking is never undone.
pub fn apply_status_change(lead: LeadState, status: PipelineStatus) -> (r: Result<
    StatusChange,
    AppError,
>)
    ensures
        match r {
            Ok(c) => {
                &&& status_change_of(lead, status) == Ok::<LeadState, ErrorView>(c.next)
                &&& c.block_domain == (status == PipelineStatus::DoNotContact)
                &&& c.metadata_json@ == "{\"status\":\""@ + status_name(status) + "\"}"@
            },
            Err(e) => status_change_of(lead, status) == Err::<LeadState, ErrorView>(e@),
        },
{
    if lead.do_not_contact && status != PipelineStatus::DoNotContact {
        return Err(AppError::DoNotContact);
    }
    let name = status.name();
    let opened = concat_str("{\"status\":\"", name.as_str());
    let metadata = concat_str(opened.as_str(), "\"}");
    Ok(
        StatusChange {
            next: LeadState {
                status,
                do_not_contact: lead.do_not_contact || status == PipelineStatus::DoNotContact,
            },
            block_domain: status == PipelineStatus::DoNotContact,
            metadata_json: metadata,
        },
    )
}

/// How far an outreach draft has gone.
#[derive(Debug, Clone, Copy, PartialEq, Eq, Structural)]
pub struct DraftProgress {
    pub approved: bool,
    pub gmail_opened: bool,
    pub sent_confirmed: bool,
}

/// A draft state together with the lead it belongs to.
#[derive(Debug, Clone, Copy, PartialEq, Eq, Structural)]
pub struct Outreach {
    pub lead: LeadState,
    pub draft: DraftProgress,
}

/// A result with its error taken by its view.
pub open spec fn outcome_plain<T>(r: Result<T, AppError>) -> Result<T, ErrorView> {
    match r {
        Ok(v) => Ok(v),
        Err(e) => Err(e@),
    }
}

/// Saving (or editing) a draft: refused for a blocked lead; otherwise the
/// lead is ready for review and every earlier approval is cleared.
pub open spec fn saved_outcome(lead: LeadState) -> Result<Outreach, ErrorView> {
    if lead.do_not_contact {
        Err(ErrorView::DoNotContact)
    } else {
        Ok(
            Outreach {
                lead: LeadState { status: PipelineStatus::DraftReady, do_not_contact: false },
                draft: DraftProgress { approved: false, gmail_opened: false, sent_confirmed: false },
            },
        )
    }
}

/// Approving a draft: refused for a blocked lead; nothing is sent.
pub open spec fn approved_outcome(current: Outreach) -> Result<Outreach, ErrorView> {
    if current.lead.do_not_contact {
        Err(ErrorView::DoNotContact)
    } else {
        Ok(
            Outreach {
                lead: LeadState { status: PipelineStatus::Approved, do_not_contact: false },
                draft: DraftProgress { approved: true, ..current.draft },
            },
        )
    }
}

/// Opening Gmail with an approved draft: recorded as opened, not as sent.
pub open spec fn gmail_opened_outcome(current: Outreach) -> Option<Outreach> {
    if !current.draft.approved {
        None
    } else {
        Some(
            Outreach {
                lead: LeadState { status: PipelineStatus::GmailOpened, ..current.lead },
                draft: DraftProgress { gmail_opened: true, ..current.draft },
            },
        )
    }
}

/// The user's answer once Gmail was opened: `None` when Gmail was never
/// opened for the draft; refused for a blocked lead, whose stage stays and for
/// which no follow-up is scheduled; otherwise a confirmed send marks the lead
/// contacted, and a denied one returns it to approved.
pub open spec fn send_confirmed_outcome(current: Outreach, sent: bool) -> Option<
    Result<Outreach, ErrorView>,
> {
    if !current.draft.gmail_opened {
        None
    } else if current.lead.do_not_contact {
        Some(Err(ErrorView::DoNotContact))
    } else if sent {
        Some(
            Ok(
                Outreach {
                    lead: LeadState { status: PipelineStatus::Contacted, ..current.lead },
                    draft: DraftProgress { sent_confirmed: true, ..current.draft },
                },
            ),
        )
    } else {
        Some(
            Ok(
                Outreach {
                    lead: LeadState { status: PipelineStatus::Approved, ..current.lead },
                    draft: current.draft,
                },
            ),
        )
    }
}

/// Recording a reply: refused for a blocked lead.
pub open spec fn reply_outcome(lead: LeadState) -> Result<LeadState, ErrorView> {
    if lead.do_not_contact {
        Err(ErrorView::DoNotContact)
    } else {
        Ok(LeadState { status: PipelineStatus::Replied, do_not_contact: false })
    }
}

/// Saves (or edits) a draft of a lead.
pub fn draft_saved(lead: LeadState) -> (r: Result<Outreach, AppError>)
    ensures
        outcome_plain(r) == saved_outcome(lead),
{
    if lead.do_not_contact {
        return Err(AppError::DoNotContact);
    }
    Ok(
        Outreach {
            lead: LeadState { status: PipelineStatus::DraftReady, do_not_contact: false },
            draft: DraftProgress { approved: false, gmail_opened: false, sent_confirmed: false },
        },
    )
}

/// Approves a draft.
pub fn draft_approved(current: Outreach) -> (r: Result<Outreach, AppError>)
    ensures
        outcome_plain(r) == approved_outcome(current),
{
    if current.lead.do_not_contact {
        return Err(AppError::DoNotContact);
    }
    Ok(
        Outreach {
            lead: LeadState { status: PipelineStatus::Approved, do_not_contact: false },
            draft: DraftProgress { approved: true, ..current.draft },
        },
    )
}

/// Records that Gmail was opened for a draft; `None` when it is not approved.
pub fn gmail_opened(current: Outreach) -> (r: Option<Outreach>)
    ensures
        r == gmail_opened_outcome(current),
{
    if !current.draft.approved {
        return None;
    }
    Some(
        Outreach {
            lead: LeadState { status: PipelineStatus::GmailOpened, ..current.lead },
            draft: DraftProgress { gmail_opened: true, ..current.draft },
        },
    )
}

/// Records the user's answer whether the prepared message was sent; `None`
/// when Gmail was never opened for the draft.
pub fn send_confirmed(current: Outreach, sent: bool) -> (r: Option<Result<Outreach, AppError>>)
    ensures
        match r {
            None => send_confirmed_outcome(current, sent) is None,
            Some(x) => send_confirmed_outcome(current, sent) == Some(outcome_plain(x)),
        },
{
    if !current.draft.gmail_opened {
        return None;
    }
    if current.lead.do_not_contact {
        return Some(Err(AppError::DoNotContact));
    }
    if sent {
        Some(
            Ok(
                Outreach {
                    lead: LeadState { status: PipelineStatus::Contacted, ..current.lead },
                    draft: DraftProgress { sent_confirmed: true, ..current.draft },
                },
            ),
        )
    } else {
        Some(
            Ok(
                Outreach {
                    lead: LeadState { status: PipelineStatus::Approved, ..current.lead },
                    draft: current.draft,
                },
            ),
        )
    }
}

/// Records a reply from a lead.
pub fn reply_recorded(lead: LeadState) -> (r: Result<LeadState, AppError>)
    ensures
        outcome_plain(r) == reply_outcome(lead),
{
    if lead.do_not_contact {
        return Err(AppError::DoNotContact);
    }
    Ok(LeadState { status: PipelineStatus::Replied, do_not_contact: false })
}

/// Something that happens to a lead and its draft.
pub enum OutreachEvent {
    DraftSaved,
    DraftApproved,
    GmailOpened,
    SendConfirmed(bool),
    ReplyRecorded,
    StatusSet(PipelineStatus),
}

/// The state after `event`, or `None` when the event is refused.
pub open spec fn step(current: Outreach, event: OutreachEvent) -> Option<Outreach> {
    match event {
        OutreachEvent::DraftSaved => match saved_outcome(current.lead) {
            Ok(n) => Some(n),
            Err(_) => None,
        },
        OutreachEvent::DraftApproved => match approved_outcome(current) {
            Ok(n) => Some(n),
            Err(_) => None,
        },
        OutreachEvent::GmailOpened => gmail_opened_outcome(current),
        OutreachEvent::SendConfirmed(sent) => match send_confirmed_outcome(current, sent) {
            Some(Ok(n)) => Some(n),
            _ => None,
        },
        OutreachEvent::ReplyRecorded => match reply_outcome(current.lead) {
            Ok(l) => Some(Outreach { lead: l, draft: current.draft }),
            Err(_) => None,
        },
        OutreachEvent::StatusSet(s) => match status_change_of(current.lead, s) {
            Ok(l) => Some(Outreach { lead: l, draft: current.draft }),
            Err(_) => None,
        },
    }
}

/// Once a lead is on the do-not-contact list, no event takes it off.
pub proof fn law_block_is_permanent(current: Outreach, event: OutreachEvent)
    requires
        current.lead.do_not_contact,
        step(current, event) is Some,
    ensures
        step(current, event)->0.lead.do_not_contact,
{
}

/// A blocked lead gets no new or edited draft, no approval, no recorded send
/// (so no follow-up) and no reply record, and can only be blocked again.
pub proof fn law_blocked_lead_is_not_contacted(current: Outreach, s: PipelineStatus)
    requires
        current.lead.do_not_contact,
    ensures
        step(current, OutreachEvent::DraftSaved) is None,
        step(current, OutreachEvent::DraftApproved) is None,
        step(current, OutreachEvent::ReplyRecorded) is None,
        step(current, OutreachEvent::SendConfirmed(true)) is None,
        step(current, OutreachEvent::SendConfirmed(false)) is None,
        s != PipelineStatus::DoNotContact ==> step(current, OutreachEvent::StatusSet(s)) is None,
{
}

/// A blocked lead never moves to the contacted stage, whatever happens.
pub proof fn law_blocked_lead_never_becomes_contacted(current: Outreach, event: OutreachEvent)
    requires
        current.lead.do_not_contact,
        current.lead.status != PipelineStatus::Contacted,
        step(current, event) is Some,
    ensures
        step(current, event)->0.lead.status != PipelineStatus::Contacted,
{
}

/// A send is recorded only when the user confirms it.
pub proof fn law_send_needs_confirmation(current: Outreach, event: OutreachEvent)
    requires
        !current.draft.sent_confirmed,
        step(current, event) matches Some(next) && next.draft.sent_confirmed,
    ensures
        event == OutreachEvent::SendConfirmed(true),
{
}

/// Opening Gmail is never taken as a send: nothing is marked sent and the
/// lead is not marked contacted.
pub proof fn law_gmail_open_is_not_a_send(current: Outreach)
    requires
        step(current, OutreachEvent::GmailOpened) is Some,
    ensures
        current.draft.approved,
        step(current, OutreachEvent::GmailOpened)->0.draft.sent_confirmed
            == current.draft.sent_confirmed,
        step(current, OutreachEvent::GmailOpened)->0.lead.status != PipelineStatus::Contacted,
{
}

/// Editing a draft always clears its approval and what followed it.
pub proof fn law_editing_clears_approval(current: Outreach)
    requires
        step(current, OutreachEvent::DraftSaved) is Some,
    ensures
        !step(current, OutreachEvent::DraftSaved)->0.draft.approved,
        !step(current, OutreachEvent::DraftSaved)->0.draft.gmail_opened,
        !step(current, OutreachEvent::DraftSaved)->0.draft.sent_confirmed,
{
}

} // verus!
