//! Outreach drafts: seeding from templates, the rules for saving a draft,
//! the Gmail compose address, and follow-up scheduling.

use vstd::prelude::*;
use vstd::utf8::encode_utf8;
use crate::error::{AppError, ErrorView, invalid, outcome};
use crate::ids::{is_uuid_v4_text, new_record_id};
use crate::text::{
    ascii_lower_seq, ascii_lowercase, byte_count, byte_len, clamp_i64, concat_str, decimal, decimal_seq,
    opt_seq, parse_i64, parsed_i64, replace_all, replace_seq, seq_starts_with, starts_with, str_eq,
    trim, trim_seq, seq_less, text_less, lemma_seq_less_irreflexive, lemma_seq_less_transitive, lemma_seq_less_total,
};
use crate::web::{form_encode_bytes, form_urlencode};

verus! {

/// A draft as the user saves it.
pub struct SaveDraftInput {
    pub id: Option<String>,
    pub lead_id: String,
    pub contact_id: String,
    pub language: String,
    pub subject: String,
    pub body: String,
    pub english_translation: Option<String>,
}

/// A stored outreach draft.
pub struct OutreachDraft {
    pub id: String,
    pub lead_id: String,
    pub contact_id: Option<String>,
    pub recipient: Option<String>,
    pub language: String,
    pub subject: String,
    pub body: String,
    pub english_translation: Option<String>,
    pub approved_at: Option<String>,
    pub gmail_opened_at: Option<String>,
    pub sent_confirmed_at: Option<String>,
    pub updated_at: String,
}

/// A first draft filled in from the default template.
pub struct DraftSeed {
    pub subject: String,
    pub body: String,
}

/// A follow-up as the follow-up list shows it.
pub struct FollowUpSummary {
    pub id: String,
    pub lead_id: String,
    pub company_name: String,
    pub due_at: String,
    pub status: String,
    pub recipient: Option<String>,
}

/// The values a template's placeholders stand for.
pub struct TemplateFields {
    pub company: String,
    pub observation: String,
    pub fiverr_url: String,
    pub sender_name: String,
    pub opt_out: String,
}

/// A template with its placeholders filled in, one placeholder after the other.
pub open spec fn render_seq(t: Seq<char>, f: TemplateFields) -> Seq<char> {
    let a = replace_seq(t, "{{company}}"@, f.company@);
    let b = replace_seq(a, "{{observation}}"@, f.observation@);
    let c = replace_seq(b, "{{fiverr_url}}"@, f.fiverr_url@);
    let d = replace_seq(c, "{{sender_name}}"@, f.sender_name@);
    replace_seq(d, "{{opt_out}}"@, f.opt_out@)
}

/// Fills in the placeholders of `template`.
pub fn render_template(template: &str, fields: &TemplateFields) -> (r: String)
    ensures
        r@ == render_seq(template@, *fields),
{
    proof {
        reveal_strlit("{{company}}");
        reveal_strlit("{{observation}}");
        reveal_strlit("{{fiverr_url}}");
        reveal_strlit("{{sender_name}}");
        reveal_strlit("{{opt_out}}");
    }
    let a = replace_all(template, "{{company}}", fields.company.as_str());
    let b = replace_all(a.as_str(), "{{observation}}", fields.observation.as_str());
    let c = replace_all(b.as_str(), "{{fiverr_url}}", fields.fiverr_url.as_str());
    let d = replace_all(c.as_str(), "{{sender_name}}", fields.sender_name.as_str());
    replace_all(d.as_str(), "{{opt_out}}", fields.opt_out.as_str())
}

/// A first draft from the default subject and body templates.
pub fn seed_draft(subject_template: &str, body_template: &str, fields: &TemplateFields) -> (r:
    DraftSeed)
    ensures
        r.subject@ == render_seq(subject_template@, *fields),
        r.body@ == render_seq(body_template@, *fields),
{
    DraftSeed {
        subject: render_template(subject_template, fields),
        body: render_template(body_template, fields),
    }
}

/// The setting that holds the opt-out line for a draft language.
pub fn opt_out_setting_key(language: &str) -> (r: &'static str)
    ensures
        language@ == "fr"@ ==> r@ == "opt_out_line_fr"@,
        language@ != "fr"@ ==> r@ == "opt_out_line_en"@,
{
    if str_eq(language, "fr") {
        "opt_out_line_fr"
    } else {
        "opt_out_line_en"
    }
}

/// The error when a lead has no evidence that a draft could cite.
pub fn missing_observation() -> (e: AppError)
    ensures
        e@ == ErrorView::InvalidLead(
            "add at least one sourced, positive, non-AI evidence item before drafting"@,
        ),
{
    invalid("add at least one sourced, positive, non-AI evidence item before drafting")
}

/// Subject and body of a draft once checked and trimmed.
pub struct CheckedDraft {
    pub subject: String,
    pub body: String,
}

impl View for CheckedDraft {
    type V = (Seq<char>, Seq<char>);

    open spec fn view(&self) -> (Seq<char>, Seq<char>) {
        (self.subject@, self.body@)
    }
}

/// The checks on a draft, in the order they are made, and the trimmed
/// subject and body.
pub open spec fn draft_check(language: Seq<char>, subject: Seq<char>, body: Seq<char>) -> Result<
    (Seq<char>, Seq<char>),
    ErrorView,
> {
    let s = trim_seq(subject);
    let b = trim_seq(body);
    if !(language == "en"@ || language == "fr"@) {
        Err(ErrorView::InvalidLead("draft language is invalid"@))
    } else if byte_len(s) < 3 || byte_len(s) > 150 || byte_len(b) < 20 || byte_len(b) > 10000 {
        Err(ErrorView::InvalidLead("draft subject or body length is invalid"@))
    } else if seq_starts_with(ascii_lower_seq(s), "re:"@) {
        Err(ErrorView::InvalidLead("an initial email must not pretend to be a reply"@))
    } else {
        Ok((s, b))
    }
}

/// Checks a draft before it is stored.
pub fn check_draft(input: &SaveDraftInput) -> (r: Result<CheckedDraft, AppError>)
    ensures
        outcome(r) == draft_check(input.language@, input.subject@, input.body@),
{
    let language = input.language.as_str();
    if !(str_eq(language, "en") || str_eq(language, "fr")) {
        return Err(invalid("draft language is invalid"));
    }
    let subject = trim(input.subject.as_str());
    let body = trim(input.body.as_str());
    let sl = byte_count(subject.as_str());
    let bl = byte_count(body.as_str());
    if sl < 3 || sl > 150 || bl < 20 || bl > 10000 {
        return Err(invalid("draft subject or body length is invalid"));
    }
    let lower = ascii_lowercase(subject.as_str());
    if starts_with(lower.as_str(), "re:") {
        return Err(invalid("an initial email must not pretend to be a reply"));
    }
    Ok(CheckedDraft { subject, body })
}

/// A draft is sent to a published business email address only.
pub fn require_email_contact(contact_type: &str) -> (r: Result<(), AppError>)
    ensures
        (contact_type@ == "role_email"@ || contact_type@ == "named_email"@) ==> r is Ok,
        !(contact_type@ == "role_email"@ || contact_type@ == "named_email"@) ==> (r matches Err(e)
            && e@ == ErrorView::InvalidLead("Gmail drafts require a published business email"@)),
{
    if str_eq(contact_type, "role_email") || str_eq(contact_type, "named_email") {
        Ok(())
    } else {
        Err(invalid("Gmail drafts require a published business email"))
    }
}

/// The identifier a saved draft is stored under: its own, or a fresh one.
pub fn draft_record_id(id: &Option<String>) -> (r: String)
    ensures
        match *id {
            Some(s) => r@ == s@,
            None => is_uuid_v4_text(r@),
        },
{
    match id {
        Some(s) => s.clone(),
        None => new_record_id(),
    }
}

/// `s` form-encoded as a query value.
pub open spec fn query_value(s: Seq<char>) -> Seq<char> {
    form_encode_bytes(encode_utf8(s))
}

/// The Gmail compose address for a draft, and when it is refused.
pub open spec fn compose_check(
    approved: bool,
    sent_confirmed: bool,
    recipient: Option<Seq<char>>,
    subject: Seq<char>,
    body: Seq<char>,
) -> Result<Seq<char>, ErrorView> {
    if !approved {
        Err(ErrorView::InvalidLead("approve the exact draft before opening Gmail"@))
    } else if sent_confirmed {
        Err(ErrorView::InvalidLead("this draft is already confirmed sent"@))
    } else {
        match recipient {
            None => Err(ErrorView::InvalidLead("draft recipient is missing"@)),
            Some(to) => Ok(
                "https://mail.google.com/mail/?view=cm&fs=1&to="@ + query_value(to) + "&su="@
                    + query_value(subject) + "&body="@ + query_value(body),
            ),
        }
    }
}

/// The Gmail compose address that pre-fills an approved, unsent draft.
pub fn compose_url(draft: &OutreachDraft) -> (r: Result<String, AppError>)
    ensures
        outcome(r) == compose_check(
            draft.approved_at is Some,
            draft.sent_confirmed_at is Some,
            opt_seq(draft.recipient),
            draft.subject@,
            draft.body@,
        ),
{
    if draft.approved_at.is_none() {
        return Err(invalid("approve the exact draft before opening Gmail"));
    }
    if draft.sent_confirmed_at.is_some() {
        return Err(invalid("this draft is already confirmed sent"));
    }
    let recipient = match &draft.recipient {
        None => return Err(invalid("draft recipient is missing")),
        Some(r) => r,
    };
    let to = form_urlencode(recipient.as_str());
    let su = form_urlencode(draft.subject.as_str());
    let body = form_urlencode(draft.body.as_str());
    let a = concat_str("https://mail.google.com/mail/?view=cm&fs=1&to=", to.as_str());
    let b = concat_str(a.as_str(), "&su=");
    let c = concat_str(b.as_str(), su.as_str());
    let d = concat_str(c.as_str(), "&body=");
    Ok(concat_str(d.as_str(), body.as_str()))
}

/// The `datetime` modifier that moves a date `days` days ahead.
pub open spec fn days_ahead_seq(days: int) -> Seq<char> {
    "+"@ + decimal_seq(days) + " days"@
}

fn days_ahead(days: i64) -> (r: String)
    ensures
        r@ == days_ahead_seq(days as int),
{
    let n = decimal(days);
    let a = concat_str("+", n.as_str());
    concat_str(a.as_str(), " days")
}

/// The check of a snooze, and the date modifier it applies.
pub open spec fn snooze_check(days: i64) -> Result<Seq<char>, ErrorView> {
    if !(1 <= days <= 30) {
        Err(ErrorView::InvalidLead("snooze must be 1–30 days"@))
    } else {
        Ok(days_ahead_seq(days as int))
    }
}

/// Checks a snooze of a follow-up by `days` days.
pub fn snooze_modifier(days: i64) -> (r: Result<String, AppError>)
    ensures
        outcome(r) == snooze_check(days),
{
    if !(1 <= days && days <= 30) {
        return Err(invalid("snooze must be 1–30 days"));
    }
    Ok(days_ahead(days))
}

/// The follow-up delay in days for a stored setting: its number, 5 when it
/// is not one, kept within 1–30.
pub open spec fn follow_up_delay_of(setting: Seq<char>) -> i64 {
    let n = match parsed_i64(setting) {
        Some(n) => n,
        None => 5,
    };
    if n < 1 {
        1
    } else if n > 30 {
        30
    } else {
        n
    }
}

/// The follow-up delay in days for a stored setting.
pub fn follow_up_delay(setting: &str) -> (r: i64)
    ensures
        r == follow_up_delay_of(setting@),
        1 <= r <= 30,
{
    let n = match parse_i64(setting) {
        Some(n) => n,
        None => 5,
    };
    clamp_i64(n, 1, 30)
}

/// The date modifier that schedules the first follow-up after a confirmed send.
pub fn follow_up_modifier(setting: &str) -> (r: String)
    ensures
        r@ == days_ahead_seq(follow_up_delay_of(setting@) as int),
{
    days_ahead(follow_up_delay(setting))
}

/// A follow-up with what the list needs to decide whether to show it.
pub struct FollowUpRow {
    pub summary: FollowUpSummary,
    pub lead_blocked: bool,
}

/// A follow-up is listed while due or snoozed, unless its lead is blocked.
pub open spec fn follow_up_listed(row: FollowUpRow) -> bool {
    (row.summary.status@ == "due"@ || row.summary.status@ == "snoozed"@) && !row.lead_blocked
}

/// The follow-ups that are listed, in their given order.
pub open spec fn listed_follow_ups(rows: Seq<FollowUpRow>) -> Seq<FollowUpSummary>
    decreases rows.len(),
{
    if rows.len() == 0 {
        Seq::empty()
    } else {
        let prev = listed_follow_ups(rows.drop_last());
        if follow_up_listed(rows.last()) {
            prev.push(rows.last().summary)
        } else {
            prev
        }
    }
}

/// The follow-ups to show, in their given order.
pub fn pending_follow_ups(rows: Vec<FollowUpRow>) -> (r: Vec<FollowUpSummary>)
    ensures
        r@ == listed_follow_ups(rows@),
{
    let ghost all = rows@;
    let mut out: Vec<FollowUpSummary> = Vec::new();
    let mut rest = rows;
    while rest.len() > 0
        invariant
            all == all.take(all.len() - rest@.len()) + rest@,
            rest@.len() <= all.len(),
            out@ == listed_follow_ups(all.take(all.len() - rest@.len())),
        decreases rest@.len(),
    {
        let ghost k = all.len() - rest@.len();
        let row = rest.remove(0);
        assert(all.take(k + 1).drop_last() =~= all.take(k));
        assert(all.take(k + 1).last() == row);
        assert(all =~= all.take(k + 1) + rest@);
        let listed = (str_eq(row.summary.status.as_str(), "due") || str_eq(
            row.summary.status.as_str(),
            "snoozed",
        )) && !row.lead_blocked;
        if listed {
            out.push(row.summary);
        }
    }
    assert(all.take(all.len() as int) =~= all);
    out
}


/// Evidence that a first draft could cite.
pub struct ObservationCandidate {
    pub claim: String,
    /// Whether the evidence points to a stored source page.
    pub has_source: bool,
    pub supports_qualification: i64,
    pub classification: String,
    pub confidence: String,
    pub created_at: String,
}

/// Sourced, positive evidence that is not an AI inference may be cited.
pub open spec fn citable(c: ObservationCandidate) -> bool {
    c.has_source && c.supports_qualification == 1 && c.classification@ != "ai_inference"@
}

/// Rank of a confidence: 1 for high, 2 for medium, 3 otherwise.
pub open spec fn confidence_rank(c: Seq<char>) -> int {
    if c == "high"@ {
        1
    } else if c == "medium"@ {
        2
    } else {
        3
    }
}

/// `a` is preferred over `b`: a higher confidence, then a later creation time.
pub open spec fn preferred(a: ObservationCandidate, b: ObservationCandidate) -> bool {
    ||| confidence_rank(a.confidence@) < confidence_rank(b.confidence@)
    ||| confidence_rank(a.confidence@) == confidence_rank(b.confidence@) && seq_less(
        b.created_at@,
        a.created_at@,
    )
}

/// `cands[i]` is the citable candidate that a draft cites: no other is
/// preferred to it, and it is preferred to every citable one before it.
pub open spec fn best_observation(cands: Seq<ObservationCandidate>, i: int) -> bool {
    &&& 0 <= i < cands.len()
    &&& citable(cands[i])
    &&& forall|j: int|
        0 <= j < cands.len() && citable(#[trigger] cands[j]) ==> (j < i ==> preferred(cands[i], cands[j]))
            && (j > i ==> !preferred(cands[j], cands[i]))
}

proof fn lemma_preferred_transitive(a: ObservationCandidate, b: ObservationCandidate, c: ObservationCandidate)
    requires
        preferred(a, b),
        preferred(b, c),
    ensures
        preferred(a, c),
{
    if seq_less(b.created_at@, a.created_at@) && seq_less(c.created_at@, b.created_at@) {
        lemma_seq_less_transitive(c.created_at@, b.created_at@, a.created_at@);
    }
}

proof fn lemma_preferred_over_worse(a: ObservationCandidate, b: ObservationCandidate, c: ObservationCandidate)
    requires
        preferred(a, b),
        !preferred(c, b),
    ensures
        preferred(a, c),
{
    if confidence_rank(a.confidence@) == confidence_rank(b.confidence@) && confidence_rank(
        c.confidence@,
    ) == confidence_rank(b.confidence@) {
        if c.created_at@ != b.created_at@ {
            lemma_seq_less_total(c.created_at@, b.created_at@);
            lemma_seq_less_transitive(c.created_at@, b.created_at@, a.created_at@);
        }
    }
}

fn confidence_rank_of(c: &str) -> (r: u8)
    ensures
        r == confidence_rank(c@),
{
    if str_eq(c, "high") {
        1
    } else if str_eq(c, "medium") {
        2
    } else {
        3
    }
}

fn is_preferred(a: &ObservationCandidate, b: &ObservationCandidate) -> (r: bool)
    ensures
        r == preferred(*a, *b),
{
    let ra = confidence_rank_of(a.confidence.as_str());
    let rb = confidence_rank_of(b.confidence.as_str());
    ra < rb || (ra == rb && text_less(b.created_at.as_str(), a.created_at.as_str()))
}

/// The evidence a first draft cites: the sourced, positive, non-AI candidate of highest
/// confidence, then the latest, the first of equals; `None` when none is citable.
pub fn choose_observation(cands: &Vec<ObservationCandidate>) -> (r: Option<usize>)
    ensures
        match r {
            Some(i) => best_observation(cands@, i as int),
            None => forall|j: int| 0 <= j < cands@.len() ==> !citable(#[trigger] cands@[j]),
        },
{
    let mut best: Option<usize> = None;
    let mut k: usize = 0;
    while k < cands.len()
        invariant
            k <= cands@.len(),
            match best {
                None => forall|j: int| 0 <= j < k ==> !citable(#[trigger] cands@[j]),
                Some(b) => {
                    &&& b < k
                    &&& citable(cands@[b as int])
                    &&& forall|j: int|
                        0 <= j < k && citable(#[trigger] cands@[j]) ==> (j < b ==> preferred(
                            cands@[b as int],
                            cands@[j],
                        )) && (j > b ==> !preferred(cands@[j], cands@[b as int]))
                },
            },
        decreases cands@.len() - k,
    {
        let c = &cands[k];
        if c.has_source && c.supports_qualification == 1 && !str_eq(
            c.classification.as_str(),
            "ai_inference",
        ) {
            match best {
                None => {
                    best = Some(k);
                },
                Some(b) => {
                    if is_preferred(c, &cands[b]) {
                        proof {
                            assert forall|j: int|
                                0 <= j < k && citable(#[trigger] cands@[j]) implies preferred(
                                cands@[k as int],
                                cands@[j],
                            ) by {
                                if j < b {
                                    lemma_preferred_transitive(
                                        cands@[k as int],
                                        cands@[b as int],
                                        cands@[j],
                                    );
                                } else if b < j < k {
                                    lemma_preferred_over_worse(
                                        cands@[k as int],
                                        cands@[b as int],
                                        cands@[j],
                                    );
                                }
                            }
                        }
                        best = Some(k);
                    }
                },
            }
        }
        k += 1;
    }
    best
}


/// A draft cites only sourced, positive evidence that is not an AI inference.
pub proof fn law_drafts_cite_only_sourced_evidence(cands: Seq<ObservationCandidate>, i: int)
    requires
        best_observation(cands, i),
    ensures
        cands[i].has_source,
        cands[i].supports_qualification == 1,
        cands[i].classification@ != "ai_inference"@,
{
}

/// Confidence comes first, whatever the dates: no citable candidate has a
/// higher confidence than the cited one (high before medium before low), and
/// none of the same confidence was created later.
pub proof fn law_cited_evidence_has_highest_confidence(cands: Seq<ObservationCandidate>, i: int)
    requires
        best_observation(cands, i),
    ensures
        forall|j: int|
            0 <= j < cands.len() && citable(#[trigger] cands[j]) && cands[j].confidence@ == "high"@
                ==> cands[i].confidence@ == "high"@,
        forall|j: int|
            0 <= j < cands.len() && citable(#[trigger] cands[j]) && cands[j].confidence@ == "medium"@
                ==> cands[i].confidence@ == "high"@ || cands[i].confidence@ == "medium"@,
        forall|j: int|
            0 <= j < cands.len() && citable(#[trigger] cands[j]) && cands[j].confidence@
                == cands[i].confidence@ ==> !seq_less(cands[i].created_at@, cands[j].created_at@),
{
    reveal_strlit("high");
    reveal_strlit("medium");
    assert("medium"@ != "high"@) by {
        assert("medium"@.len() != "high"@.len());
    }
    assert forall|j: int| 0 <= j < cands.len() && citable(#[trigger] cands[j]) implies confidence_rank(
        cands[i].confidence@,
    ) <= confidence_rank(cands[j].confidence@) && (cands[j].confidence@ == cands[i].confidence@
        ==> !seq_less(cands[i].created_at@, cands[j].created_at@)) by {
        lemma_seq_less_irreflexive(cands[i].created_at@);
        if j < i && cands[j].confidence@ == cands[i].confidence@ && seq_less(
            cands[i].created_at@,
            cands[j].created_at@,
        ) {
            lemma_seq_less_transitive(cands[i].created_at@, cands[j].created_at@, cands[i].created_at@);
        }
    }
}

/// Every Gmail compose address opens Gmail's compose page.
pub proof fn law_compose_url_opens_gmail(
    approved: bool,
    sent_confirmed: bool,
    recipient: Option<Seq<char>>,
    subject: Seq<char>,
    body: Seq<char>,
)
    requires
        compose_check(approved, sent_confirmed, recipient, subject, body) is Ok,
    ensures
        approved,
        !sent_confirmed,
        recipient is Some,
        seq_starts_with(
            compose_check(approved, sent_confirmed, recipient, subject, body)->Ok_0,
            "https://mail.google.com/"@,
        ),
{
    reveal_strlit("https://mail.google.com/mail/?view=cm&fs=1&to=");
    reveal_strlit("https://mail.google.com/");
    let u = compose_check(approved, sent_confirmed, recipient, subject, body)->Ok_0;
    let head = "https://mail.google.com/mail/?view=cm&fs=1&to="@;
    assert(u.subrange(0, 24) =~= head.subrange(0, 24));
    assert(head.subrange(0, 24) =~= "https://mail.google.com/"@);
}

/// Only due or snoozed follow-ups of leads that are not blocked are listed.
pub proof fn law_listed_follow_ups_are_open(rows: Seq<FollowUpRow>)
    ensures
        listed_follow_ups(rows).len() <= rows.len(),
        forall|i: int|
            0 <= i < listed_follow_ups(rows).len() ==> exists|j: int|
                0 <= j < rows.len() && follow_up_listed(#[trigger] rows[j]) && rows[j].summary
                    == #[trigger] listed_follow_ups(rows)[i],
    decreases rows.len(),
{
    if rows.len() > 0 {
        let prev = rows.drop_last();
        law_listed_follow_ups_are_open(prev);
        let l = listed_follow_ups(rows);
        assert forall|i: int| 0 <= i < l.len() implies exists|j: int|
            0 <= j < rows.len() && follow_up_listed(#[trigger] rows[j]) && rows[j].summary == #[trigger] l[i] by {
            if i < listed_follow_ups(prev).len() {
                let j = choose|j: int|
                    0 <= j < prev.len() && follow_up_listed(#[trigger] prev[j]) && prev[j].summary
                        == listed_follow_ups(prev)[i];
                assert(rows[j] == prev[j]);
            } else {
                assert(follow_up_listed(rows[rows.len() - 1]));
            }
        }
    }
}

} // verus!
