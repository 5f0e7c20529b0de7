//! Leads: the rules for entering and editing a company, and the dashboard
//! counts of the pipeline.

use vstd::prelude::*;
use crate::error::{AppError, ErrorView, invalid, outcome};
use crate::text::{ascii_lower_char, seq_starts_with, byte_count, ascii_lower_seq, ascii_lowercase, byte_len, concat_str, opt_seq, str_eq, strip_prefix_or_keep, strip_prefix_seq, trim, trim_end_char, trim_end_char_seq, trim_nonblank, trim_seq, trimmed_nonblank};
use crate::exports::texts;
use crate::workflow::{LeadState, PipelineStatus, status_change_of};
use crate::web::{WebUrl, WebUrlView, parse_url, url_parse_result, url_view};

verus! {

/// A company entered by hand.
pub struct CreateLeadInput {
    pub company_name: String,
    pub official_website: String,
    pub country: String,
    pub language: String,
    pub city_or_service_area: Option<String>,
}

/// New details for a stored lead.
pub struct UpdateLeadInput {
    pub id: String,
    pub company_name: String,
    pub official_website: String,
    pub country: String,
    pub language: String,
    pub city_or_service_area: Option<String>,
}

/// A lead as the pipeline lists it.
pub struct LeadSummary {
    pub id: String,
    pub company_name: String,
    pub official_website: String,
    pub country: String,
    pub language: String,
    pub city_or_service_area: Option<String>,
    pub status: String,
    pub qualification_score: Option<i64>,
    pub confidence_level: Option<String>,
    pub created_at: String,
}

/// How many leads stand in each stage of the pipeline.
pub struct DashboardCounts {
    pub total: i64,
    pub needs_review: i64,
    pub qualified: i64,
    pub drafts_ready: i64,
    pub contacted: i64,
    pub follow_ups_due: i64,
    pub replied: i64,
    pub interested: i64,
    pub converted: i64,
}

/// Company details once checked and normalised, ready to be stored.
pub struct PreparedLead {
    pub company_name: String,
    pub official_website: String,
    pub normalized_domain: String,
    pub duplicate_fingerprint: String,
    pub city_or_service_area: Option<String>,
}

/// A [`PreparedLead`] taken by its characters.
pub struct PreparedLeadView {
    pub company_name: Seq<char>,
    pub official_website: Seq<char>,
    pub normalized_domain: Seq<char>,
    pub duplicate_fingerprint: Seq<char>,
    pub city_or_service_area: Option<Seq<char>>,
}

impl View for PreparedLead {
    type V = PreparedLeadView;

    open spec fn view(&self) -> PreparedLeadView {
        PreparedLeadView {
            company_name: self.company_name@,
            official_website: self.official_website@,
            normalized_domain: self.normalized_domain@,
            duplicate_fingerprint: self.duplicate_fingerprint@,
            city_or_service_area: opt_seq(self.city_or_service_area),
        }
    }
}

/// Countries whose markets the desk serves.
pub open spec fn supported_country(c: Seq<char>) -> bool {
    c == "GB"@ || c == "US"@ || c == "FR"@
}

/// Languages in which outreach is written.
pub open spec fn supported_language(l: Seq<char>) -> bool {
    l == "en"@ || l == "fr"@
}

/// Web schemes a lead's pages may use.
pub open spec fn web_scheme(s: Seq<char>) -> bool {
    s == "http"@ || s == "https"@
}

/// The registrable form of a host: lower case, without a leading `www.`.
pub open spec fn normalized_domain_of(host: Seq<char>) -> Seq<char> {
    strip_prefix_seq(ascii_lower_seq(host), "www."@)
}

/// The checks on a company's details, in the order they are made, given
/// what the address parser made of the trimmed website, and the normalised
/// record they give.
pub open spec fn lead_details_from(
    company_name: Seq<char>,
    country: Seq<char>,
    language: Seq<char>,
    city: Option<Seq<char>>,
    website: Option<WebUrlView>,
) -> Result<PreparedLeadView, ErrorView> {
    let name = trim_seq(company_name);
    if byte_len(name) < 2 || byte_len(name) > 200 {
        Err(ErrorView::InvalidLead("company name must be 2–200 characters"@))
    } else if !supported_country(country) {
        Err(ErrorView::InvalidLead("country must be GB, US, or FR"@))
    } else if !supported_language(language) {
        Err(ErrorView::InvalidLead("language must be English or French"@))
    } else {
        match website {
            None => Err(ErrorView::InvalidLead("official website must be a valid URL"@)),
            Some(u) => if !web_scheme(u.scheme) {
                Err(ErrorView::InvalidLead("only HTTP and HTTPS websites are supported"@))
            } else {
                match u.host {
                    None => Err(ErrorView::InvalidLead("official website must include a domain"@)),
                    Some(h) => {
                        let domain = normalized_domain_of(h);
                        Ok(
                            PreparedLeadView {
                                company_name: name,
                                official_website: trim_end_char_seq(u.without_fragment, '/'),
                                normalized_domain: domain,
                                duplicate_fingerprint: "domain:"@ + domain,
                                city_or_service_area: trimmed_nonblank(city),
                            },
                        )
                    },
                }
            },
        }
    }
}

/// The checks on a company's details, with the website parsed once trimmed.
pub open spec fn lead_details_check(
    company_name: Seq<char>,
    official_website: Seq<char>,
    country: Seq<char>,
    language: Seq<char>,
    city: Option<Seq<char>>,
) -> Result<PreparedLeadView, ErrorView> {
    lead_details_from(company_name, country, language, city, url_parse_result(trim_seq(official_website)))
}

/// Checks and normalises a company's details, given the parsed website.
pub fn lead_details_from_url(
    company_name: &str,
    country: &str,
    language: &str,
    city: &Option<String>,
    website: Option<WebUrl>,
) -> (r: Result<PreparedLead, AppError>)
    ensures
        outcome(r) == lead_details_from(company_name@, country@, language@, opt_seq(*city), url_view(website)),
{
    let name = trim(company_name);
    let name_len = byte_count(name.as_str());
    if name_len < 2 || name_len > 200 {
        return Err(invalid("company name must be 2–200 characters"));
    }
    if !(str_eq(country, "GB") || str_eq(country, "US") || str_eq(country, "FR")) {
        return Err(invalid("country must be GB, US, or FR"));
    }
    if !(str_eq(language, "en") || str_eq(language, "fr")) {
        return Err(invalid("language must be English or French"));
    }
    let url = match website {
        None => return Err(invalid("official website must be a valid URL")),
        Some(u) => u,
    };
    if !(str_eq(url.scheme.as_str(), "http") || str_eq(url.scheme.as_str(), "https")) {
        return Err(invalid("only HTTP and HTTPS websites are supported"));
    }
    let host = match &url.host {
        None => return Err(invalid("official website must include a domain")),
        Some(h) => h,
    };
    let lower = ascii_lowercase(host.as_str());
    let domain = strip_prefix_or_keep(lower.as_str(), "www.");
    let website = trim_end_char(url.without_fragment.as_str(), '/');
    let fingerprint = concat_str("domain:", domain.as_str());
    let city = trim_nonblank(city);
    Ok(
        PreparedLead {
            company_name: name,
            official_website: website,
            normalized_domain: domain,
            duplicate_fingerprint: fingerprint,
            city_or_service_area: city,
        },
    )
}

/// Checks and normalises a company's details: the website is trimmed and
/// parsed as a web address.
pub fn prepare_lead_details(
    company_name: &str,
    official_website: &str,
    country: &str,
    language: &str,
    city: &Option<String>,
) -> (r: Result<PreparedLead, AppError>)
    ensures
        outcome(r) == lead_details_check(company_name@, official_website@, country@, language@, opt_seq(*city)),
{
    let site = trim(official_website);
    let parsed = parse_url(site.as_str());
    lead_details_from_url(company_name, country, language, city, parsed)
}

/// Checks and normalises a company entered by hand.
pub fn prepare_new_lead(input: &CreateLeadInput) -> (r: Result<PreparedLead, AppError>)
    ensures
        outcome(r) == lead_details_check(
            input.company_name@,
            input.official_website@,
            input.country@,
            input.language@,
            opt_seq(input.city_or_service_area),
        ),
{
    prepare_lead_details(
        input.company_name.as_str(),
        input.official_website.as_str(),
        input.country.as_str(),
        input.language.as_str(),
        &input.city_or_service_area,
    )
}

/// Checks and normalises new details for a stored lead.
pub fn prepare_lead_update(input: &UpdateLeadInput) -> (r: Result<PreparedLead, AppError>)
    ensures
        outcome(r) == lead_details_check(
            input.company_name@,
            input.official_website@,
            input.country@,
            input.language@,
            opt_seq(input.city_or_service_area),
        ),
{
    prepare_lead_details(
        input.company_name.as_str(),
        input.official_website.as_str(),
        input.country.as_str(),
        input.language.as_str(),
        &input.city_or_service_area,
    )
}

/// The check of a lead's normalised domain against the domains on the
/// do-not-contact list.
pub open spec fn domain_check(listed: Seq<Seq<char>>, domain: Seq<char>) -> Result<(), ErrorView> {
    if listed.contains(domain) {
        Err(ErrorView::DoNotContact)
    } else {
        Ok(())
    }
}

/// The do-not-contact list after a stage change of a lead of `domain`: a
/// change that blocks the lead lists its domain, once.
pub open spec fn blocklist_after(listed: Seq<Seq<char>>, domain: Seq<char>, blocks: bool) -> Seq<
    Seq<char>,
> {
    if blocks && !listed.contains(domain) {
        listed.push(domain)
    } else {
        listed
    }
}

/// Whether `domain` is one of the listed domains `blocked`.
pub fn domain_listed(blocked: &Vec<String>, domain: &str) -> (r: bool)
    ensures
        r == texts(blocked@).contains(domain@),
{
    let mut i: usize = 0;
    while i < blocked.len()
        invariant
            i <= blocked.len(),
            forall|j: int| 0 <= j < i ==> (#[trigger] blocked@[j])@ != domain@,
        decreases blocked.len() - i,
    {
        if str_eq(blocked[i].as_str(), domain) {
            proof {
                assert(texts(blocked@)[i as int] == domain@);
            }
            return true;
        }
        i += 1;
    }
    proof {
        if texts(blocked@).contains(domain@) {
            let j = choose|j: int| 0 <= j < texts(blocked@).len() && texts(blocked@)[j] == domain@;
            assert(blocked@[j]@ == domain@);
        }
    }
    false
}

/// Refuses a new or edited lead whose domain is on the do-not-contact list.
pub fn check_lead_domain(blocked: &Vec<String>, lead: &PreparedLead) -> (r: Result<(), AppError>)
    ensures
        match r {
            Ok(()) => domain_check(texts(blocked@), lead.normalized_domain@) == Ok::<(), ErrorView>(()),
            Err(e) => domain_check(texts(blocked@), lead.normalized_domain@) == Err::<(), ErrorView>(e@),
        },
{
    if domain_listed(blocked, lead.normalized_domain.as_str()) {
        Err(AppError::DoNotContact)
    } else {
        Ok(())
    }
}

/// A domain marked do-not-contact can never be added as a lead again, nor
/// given to a lead by an edit: blocking a lead of `domain` succeeds whatever
/// the lead's state, lists `domain`, and from then on the domain check
/// refuses every company whose details normalise to `domain`.
pub proof fn law_blocked_domain_is_refused(
    listed: Seq<Seq<char>>,
    lead: LeadState,
    domain: Seq<char>,
    company_name: Seq<char>,
    official_website: Seq<char>,
    country: Seq<char>,
    language: Seq<char>,
    city: Option<Seq<char>>,
)
    requires
        lead_details_check(company_name, official_website, country, language, city) matches Ok(p)
            && p.normalized_domain == domain,
    ensures
        status_change_of(lead, PipelineStatus::DoNotContact) == Ok::<LeadState, ErrorView>(
            LeadState { status: PipelineStatus::DoNotContact, do_not_contact: true },
        ),
        blocklist_after(listed, domain, true).contains(domain),
        lead_details_check(company_name, official_website, country, language, city) matches Ok(p)
            && domain_check(blocklist_after(listed, domain, true), p.normalized_domain)
            == Err::<(), ErrorView>(ErrorView::DoNotContact),
{
    if !listed.contains(domain) {
        assert(listed.push(domain)[listed.len() as int] == domain);
    }
}

/// Nothing ever leaves the do-not-contact list: whatever a stage change
/// does, every listed domain stays listed.
pub proof fn law_blocklist_only_grows(listed: Seq<Seq<char>>, domain: Seq<char>, blocks: bool)
    ensures
        forall|x: Seq<char>| listed.contains(x) ==> #[trigger] blocklist_after(listed, domain, blocks).contains(x),
{
    assert forall|x: Seq<char>| listed.contains(x) implies #[trigger] blocklist_after(listed, domain, blocks).contains(x) by {
        let j = choose|j: int| 0 <= j < listed.len() && listed[j] == x;
        if blocks && !listed.contains(domain) {
            assert(listed.push(domain)[j] == x);
        }
    }
}

/// The error for a rejected write of a lead: a uniqueness conflict means
/// that the website is already stored.
pub fn lead_write_failure(constraint_violation: bool, message: String) -> (e: AppError)
    ensures
        constraint_violation ==> e == AppError::DuplicateLead,
        !constraint_violation ==> e@ == ErrorView::Database(message@),
{
    if constraint_violation {
        AppError::DuplicateLead
    } else {
        AppError::Database(message)
    }
}


/// How many of `statuses` equal `name`.
pub open spec fn count_status(statuses: Seq<String>, name: Seq<char>) -> nat
    decreases statuses.len(),
{
    if statuses.len() == 0 {
        0
    } else {
        count_status(statuses.drop_last(), name) + if statuses.last()@ == name {
            1nat
        } else {
            0nat
        }
    }
}

/// The dashboard counts of leads whose stages are `statuses`.
pub open spec fn dashboard_counts_of(statuses: Seq<String>) -> (
    int,
    int,
    int,
    int,
    int,
    int,
    int,
    int,
    int,
) {
    (
        statuses.len() as int,
        count_status(statuses, "needs_review"@) as int,
        count_status(statuses, "qualified"@) as int,
        count_status(statuses, "draft_ready"@) as int,
        count_status(statuses, "contacted"@) as int,
        count_status(statuses, "follow_up_due"@) as int,
        count_status(statuses, "replied"@) as int,
        count_status(statuses, "interested"@) as int,
        count_status(statuses, "converted"@) as int,
    )
}

/// The counts as a tuple, in the order of the fields.
pub open spec fn counts_tuple(c: DashboardCounts) -> (int, int, int, int, int, int, int, int, int) {
    (
        c.total as int,
        c.needs_review as int,
        c.qualified as int,
        c.drafts_ready as int,
        c.contacted as int,
        c.follow_ups_due as int,
        c.replied as int,
        c.interested as int,
        c.converted as int,
    )
}

/// Counts the leads in each dashboard stage, given every lead's stage.
pub fn tally_statuses(statuses: &Vec<String>) -> (r: DashboardCounts)
    requires
        statuses@.len() <= i64::MAX,
    ensures
        counts_tuple(r) == dashboard_counts_of(statuses@),
{
    let mut c = DashboardCounts {
        total: 0,
        needs_review: 0,
        qualified: 0,
        drafts_ready: 0,
        contacted: 0,
        follow_ups_due: 0,
        replied: 0,
        interested: 0,
        converted: 0,
    };
    let mut i: usize = 0;
    while i < statuses.len()
        invariant
            i <= statuses@.len() <= i64::MAX,
            counts_tuple(c) == dashboard_counts_of(statuses@.take(i as int)),
            c.needs_review <= i,
            c.qualified <= i,
            c.drafts_ready <= i,
            c.contacted <= i,
            c.follow_ups_due <= i,
            c.replied <= i,
            c.interested <= i,
            c.converted <= i,
        decreases statuses@.len() - i,
    {
        assert(statuses@.take(i + 1).drop_last() =~= statuses@.take(i as int));
        let s = statuses[i].as_str();
        c.total = c.total + 1;
        if str_eq(s, "needs_review") {
            c.needs_review = c.needs_review + 1;
        }
        if str_eq(s, "qualified") {
            c.qualified = c.qualified + 1;
        }
        if str_eq(s, "draft_ready") {
            c.drafts_ready = c.drafts_ready + 1;
        }
        if str_eq(s, "contacted") {
            c.contacted = c.contacted + 1;
        }
        if str_eq(s, "follow_up_due") {
            c.follow_ups_due = c.follow_ups_due + 1;
        }
        if str_eq(s, "replied") {
            c.replied = c.replied + 1;
        }
        if str_eq(s, "interested") {
            c.interested = c.interested + 1;
        }
        if str_eq(s, "converted") {
            c.converted = c.converted + 1;
        }
        i += 1;
    }
    assert(statuses@.take(statuses@.len() as int) =~= statuses@);
    c
}


/// No lead is counted in two dashboard stages: the stage counts add up to
/// at most the total.
pub proof fn law_stage_counts_within_total(statuses: Seq<String>)
    ensures
        ({
            let c = dashboard_counts_of(statuses);
            c.1 + c.2 + c.3 + c.4 + c.5 + c.6 + c.7 + c.8 <= c.0
        }),
    decreases statuses.len(),
{
    if statuses.len() > 0 {
        let p = statuses.drop_last();
        law_stage_counts_within_total(p);
        let x = statuses.last()@;
        lemma_at_most_one_stage(x);
        assert(count_status(statuses, "needs_review"@) == count_status(p, "needs_review"@) + if x == "needs_review"@ { 1nat } else { 0nat });
    }
}

/// A stage name is one of the dashboard stages at most once.
proof fn lemma_at_most_one_stage(x: Seq<char>)
    ensures
        (if x == "needs_review"@ { 1int } else { 0 }) + (if x == "qualified"@ { 1int } else { 0 })
            + (if x == "draft_ready"@ { 1int } else { 0 }) + (if x == "contacted"@ { 1int } else { 0 })
            + (if x == "follow_up_due"@ { 1int } else { 0 }) + (if x == "replied"@ { 1int } else { 0 })
            + (if x == "interested"@ { 1int } else { 0 }) + (if x == "converted"@ { 1int } else { 0 }) <= 1,
{
    reveal_strlit("needs_review");
    reveal_strlit("qualified");
    reveal_strlit("draft_ready");
    reveal_strlit("contacted");
    reveal_strlit("follow_up_due");
    reveal_strlit("replied");
    reveal_strlit("interested");
    reveal_strlit("converted");
    if x == "needs_review"@ {
        assert(x.len() == 12);
    } else if x == "qualified"@ {
        assert(x.len() == 9 && x[0] == 'q');
    } else if x == "draft_ready"@ {
        assert(x.len() == 11);
    } else if x == "contacted"@ {
        assert(x.len() == 9 && x[0] == 'c' && x[3] == 't');
    } else if x == "follow_up_due"@ {
        assert(x.len() == 13);
    } else if x == "replied"@ {
        assert(x.len() == 7);
    } else if x == "interested"@ {
        assert(x.len() == 10);
    }
}

/// A host and its ASCII lower-case form give the same registrable domain,
/// so two websites differing only in the case of their host are duplicates.
pub proof fn law_domain_ignores_ascii_case(host: Seq<char>)
    ensures
        normalized_domain_of(ascii_lower_seq(host)) == normalized_domain_of(host),
{
    assert forall|i: int| 0 <= i < host.len() implies ascii_lower_seq(ascii_lower_seq(host))[i]
        == #[trigger] ascii_lower_seq(host)[i] by {
        let c = host[i];
        if 'A' <= c <= 'Z' {
            assert(('a' <= ascii_lower_char(c) <= 'z'));
        }
    }
    assert(ascii_lower_seq(ascii_lower_seq(host)) =~= ascii_lower_seq(host));
}

/// A leading `www.` does not change the registrable domain of a host that
/// does not already start with one.
pub proof fn law_domain_ignores_www(host: Seq<char>)
    requires
        !seq_starts_with(ascii_lower_seq(host), "www."@),
    ensures
        normalized_domain_of("www."@ + host) == normalized_domain_of(host),
{
    reveal_strlit("www.");
    let w = "www."@;
    assert(ascii_lower_seq(w) =~= w);
    assert(ascii_lower_seq(w + host) =~= w + ascii_lower_seq(host));
    assert((w + ascii_lower_seq(host)).subrange(0, 4) =~= w);
    assert((w + ascii_lower_seq(host)).subrange(4, 4 + host.len() as int) =~= ascii_lower_seq(host));
}

} // verus!
