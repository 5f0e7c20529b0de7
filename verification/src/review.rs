//! Evidence review: the rules for recording evidence and notes, and the
//! qualification score computed from stored evidence.

use vstd::prelude::*;
use crate::error::{AppError, ErrorView, invalid, outcome};
use crate::text::{byte_count, byte_len, concat_str, opt_seq, replace_all, replace_seq, signed_decimal, signed_decimal_seq, str_eq, trim, trim_seq};
use crate::web::{WebUrl, WebUrlView, parse_url, url_parse_result, url_view};
use crate::leads::web_scheme;

verus! {

/// Evidence about a lead, as the user enters it.
pub struct AddEvidenceInput {
    pub lead_id: String,
    pub classification: String,
    pub category: String,
    pub claim: String,
    pub supports_qualification: i8,
    pub confidence: String,
    pub source_url: Option<String>,
}

/// A stored evidence item.
pub struct EvidenceClaim {
    pub id: String,
    pub classification: String,
    pub category: String,
    pub claim: String,
    pub supports_qualification: i8,
    pub confidence: String,
    pub source_url: Option<String>,
    pub created_at: String,
}

/// A stored note on a lead.
pub struct LeadNote {
    pub id: String,
    pub body: String,
    pub created_at: String,
}

/// Everything the review screen shows of a lead.
pub struct ReviewData {
    pub evidence: Vec<EvidenceClaim>,
    pub notes: Vec<LeadNote>,
}

/// The scoring categories, in the order the score adds them up.
pub open spec fn scoring_categories() -> Seq<Seq<char>> {
    seq![
        "relevant_business_type"@,
        "portfolio_size"@,
        "public_business_contact"@,
        "no_floor_plan_found"@,
        "weak_2d_floor_plan"@,
        "multi_unit"@,
        "premium_marketing"@,
        "geographic_match"@,
        "repeat_work_likelihood"@,
        "excellent_3d_floor_plans"@,
        "individual_host"@,
        "no_lawful_contact"@,
    ]
}

/// The scoring categories as strings.
fn category_names() -> (v: Vec<&'static str>)
    ensures
        v@.len() == 12,
        forall|i: int| 0 <= i < 12 ==> #[trigger] v@[i]@ == scoring_categories()[i],
{
    vec![
        "relevant_business_type",
        "portfolio_size",
        "public_business_contact",
        "no_floor_plan_found",
        "weak_2d_floor_plan",
        "multi_unit",
        "premium_marketing",
        "geographic_match",
        "repeat_work_likelihood",
        "excellent_3d_floor_plans",
        "individual_host",
        "no_lawful_contact",
    ]
}

/// Whether `c` is one of the scoring categories.
pub fn is_scoring_category(c: &str) -> (r: bool)
    ensures
        r == scoring_categories().contains(c@),
{
    let names = category_names();
    let mut i: usize = 0;
    while i < names.len()
        invariant
            i <= names@.len() == 12,
            forall|k: int| 0 <= k < 12 ==> #[trigger] names@[k]@ == scoring_categories()[k],
            forall|k: int| 0 <= k < i ==> scoring_categories()[k] != c@,
        decreases names@.len() - i,
    {
        if str_eq(names[i], c) {
            assert(scoring_categories()[i as int] == c@);
            return true;
        }
        i += 1;
    }
    false
}

/// Points that a category is worth at full strength.
pub open spec fn category_weight_of(c: Seq<char>) -> int {
    if c == "relevant_business_type"@ {
        20
    } else if c == "portfolio_size"@ {
        15
    } else if c == "public_business_contact"@ {
        10
    } else if c == "no_floor_plan_found"@ || c == "weak_2d_floor_plan"@ || c == "multi_unit"@ {
        15
    } else if c == "premium_marketing"@ || c == "geographic_match"@ {
        5
    } else if c == "repeat_work_likelihood"@ {
        10
    } else if c == "excellent_3d_floor_plans"@ || c == "no_lawful_contact"@ {
        25
    } else if c == "individual_host"@ {
        40
    } else {
        0
    }
}

/// Points that a category is worth at full strength; 0 for unknown categories.
pub fn category_weight(category: &str) -> (r: i64)
    ensures
        r == category_weight_of(category@),
        0 <= r <= 40,
{
    if str_eq(category, "relevant_business_type") {
        20
    } else if str_eq(category, "portfolio_size") {
        15
    } else if str_eq(category, "public_business_contact") {
        10
    } else if str_eq(category, "no_floor_plan_found") || str_eq(category, "weak_2d_floor_plan")
        || str_eq(category, "multi_unit") {
        15
    } else if str_eq(category, "premium_marketing") || str_eq(category, "geographic_match") {
        5
    } else if str_eq(category, "repeat_work_likelihood") {
        10
    } else if str_eq(category, "excellent_3d_floor_plans") || str_eq(category, "no_lawful_contact") {
        25
    } else if str_eq(category, "individual_host") {
        40
    } else {
        0
    }
}

/// Strength of an opportunity signal for an evidence confidence.
pub open spec fn confidence_strength_of(c: Seq<char>) -> int {
    if c == "high"@ {
        3
    } else if c == "medium"@ {
        2
    } else {
        1
    }
}

/// Strength of an opportunity signal: 3 for high, 2 for medium, else 1.
pub fn confidence_strength(value: &str) -> (r: i64)
    ensures
        r == confidence_strength_of(value@),
{
    if str_eq(value, "high") {
        3
    } else if str_eq(value, "medium") {
        2
    } else {
        1
    }
}

/// The check of an evidence source address, given what the address parser
/// made of it, and its stored form.
pub open spec fn source_url_from(source: Option<WebUrlView>) -> Result<Seq<char>, ErrorView> {
    match source {
        None => Err(ErrorView::InvalidLead("source must be a valid URL"@)),
        Some(u) => if !web_scheme(u.scheme) {
            Err(ErrorView::InvalidLead("source must use HTTP or HTTPS"@))
        } else {
            Ok(u.without_fragment)
        },
    }
}

/// The check of an evidence source address, parsed once trimmed.
pub open spec fn source_url_check(value: Seq<char>) -> Result<Seq<char>, ErrorView> {
    source_url_from(url_parse_result(trim_seq(value)))
}

/// Checks a parsed evidence source address and drops its fragment.
pub fn source_url_from_parsed(source: Option<WebUrl>) -> (r: Result<String, AppError>)
    ensures
        outcome(r) == source_url_from(url_view(source)),
{
    let url = match source {
        None => return Err(invalid("source must be a valid URL")),
        Some(u) => u,
    };
    if !(str_eq(url.scheme.as_str(), "http") || str_eq(url.scheme.as_str(), "https")) {
        return Err(invalid("source must use HTTP or HTTPS"));
    }
    Ok(url.without_fragment)
}

/// Checks an evidence source address and drops its fragment.
pub fn validate_source_url(value: &str) -> (r: Result<String, AppError>)
    ensures
        outcome(r) == source_url_check(value@),
{
    let trimmed = trim(value);
    source_url_from_parsed(parse_url(trimmed.as_str()))
}

/// Evidence once checked, ready to be stored.
pub struct CheckedEvidence {
    /// The claim without surrounding white space.
    pub claim: String,
    /// The source address without its fragment, when one was given.
    pub normalized_source: Option<String>,
    /// The strength of the opportunity signal this evidence records, if any.
    pub signal_strength: Option<i64>,
}

/// A [`CheckedEvidence`] taken by its characters.
pub struct CheckedEvidenceView {
    pub claim: Seq<char>,
    pub normalized_source: Option<Seq<char>>,
    pub signal_strength: Option<i64>,
}

impl View for CheckedEvidence {
    type V = CheckedEvidenceView;

    open spec fn view(&self) -> CheckedEvidenceView {
        CheckedEvidenceView {
            claim: self.claim@,
            normalized_source: opt_seq(self.normalized_source),
            signal_strength: self.signal_strength,
        }
    }
}

/// Evidence classifications.
pub open spec fn known_classification(c: Seq<char>) -> bool {
    ||| c == "verified_fact"@
    ||| c == "extracted_statement"@
    ||| c == "ai_inference"@
    ||| c == "missing_information"@
    ||| c == "user_entered"@
}

/// Evidence confidences.
pub open spec fn known_confidence(c: Seq<char>) -> bool {
    c == "low"@ || c == "medium"@ || c == "high"@
}

/// Categories whose positive evidence is an opportunity for a floor plan.
pub open spec fn opportunity_category(c: Seq<char>) -> bool {
    c == "no_floor_plan_found"@ || c == "weak_2d_floor_plan"@ || c == "multi_unit"@
}

/// The checks on new evidence, in the order they are made, and what is stored.
pub open spec fn evidence_check(
    classification: Seq<char>,
    category: Seq<char>,
    claim: Seq<char>,
    direction: i8,
    confidence: Seq<char>,
    source_url: Option<Seq<char>>,
) -> Result<CheckedEvidenceView, ErrorView> {
    let text = trim_seq(claim);
    if !known_classification(classification) {
        Err(ErrorView::InvalidLead("unknown evidence classification"@))
    } else if !scoring_categories().contains(category) {
        Err(ErrorView::InvalidLead("unknown scoring category"@))
    } else if !(-1 <= direction <= 1) {
        Err(ErrorView::InvalidLead("evidence direction must be -1, 0, or 1"@))
    } else if !known_confidence(confidence) {
        Err(ErrorView::InvalidLead("unknown evidence confidence"@))
    } else if byte_len(text) < 5 || byte_len(text) > 2000 {
        Err(ErrorView::InvalidLead("evidence must be 5–2,000 characters"@))
    } else if classification != "user_entered"@ && classification != "missing_information"@
        && source_url is None {
        Err(ErrorView::InvalidLead("this evidence type requires an exact source URL"@))
    } else {
        let signal = if opportunity_category(category) && direction == 1 {
            Some(confidence_strength_of(confidence) as i64)
        } else {
            None
        };
        match source_url {
            None => Ok(
                CheckedEvidenceView { claim: text, normalized_source: None, signal_strength: signal },
            ),
            Some(s) => match source_url_check(s) {
                Err(e) => Err(e),
                Ok(u) => Ok(
                    CheckedEvidenceView {
                        claim: text,
                        normalized_source: Some(u),
                        signal_strength: signal,
                    },
                ),
            },
        }
    }
}

/// Checks new evidence and normalises what will be stored.
pub fn check_evidence(input: &AddEvidenceInput) -> (r: Result<CheckedEvidence, AppError>)
    ensures
        outcome(r) == evidence_check(
            input.classification@,
            input.category@,
            input.claim@,
            input.supports_qualification,
            input.confidence@,
            opt_seq(input.source_url),
        ),
{
    let classification = input.classification.as_str();
    if !(str_eq(classification, "verified_fact") || str_eq(classification, "extracted_statement")
        || str_eq(classification, "ai_inference") || str_eq(classification, "missing_information")
        || str_eq(classification, "user_entered")) {
        return Err(invalid("unknown evidence classification"));
    }
    if !is_scoring_category(input.category.as_str()) {
        return Err(invalid("unknown scoring category"));
    }
    let direction = input.supports_qualification;
    if !(-1 <= direction && direction <= 1) {
        return Err(invalid("evidence direction must be -1, 0, or 1"));
    }
    let confidence = input.confidence.as_str();
    if !(str_eq(confidence, "low") || str_eq(confidence, "medium") || str_eq(confidence, "high")) {
        return Err(invalid("unknown evidence confidence"));
    }
    let claim = trim(input.claim.as_str());
    let claim_len = byte_count(claim.as_str());
    if claim_len < 5 || claim_len > 2000 {
        return Err(invalid("evidence must be 5–2,000 characters"));
    }
    let sourceless_allowed = str_eq(classification, "user_entered") || str_eq(
        classification,
        "missing_information",
    );
    if !sourceless_allowed && input.source_url.is_none() {
        return Err(invalid("this evidence type requires an exact source URL"));
    }
    let category = input.category.as_str();
    let opportunity = str_eq(category, "no_floor_plan_found") || str_eq(category, "weak_2d_floor_plan")
        || str_eq(category, "multi_unit");
    let signal = if opportunity && direction == 1 {
        Some(confidence_strength(confidence))
    } else {
        None
    };
    let normalized_source = match &input.source_url {
        None => None,
        Some(s) => match validate_source_url(s.as_str()) {
            Err(e) => return Err(e),
            Ok(u) => Some(u),
        },
    };
    Ok(CheckedEvidence { claim, normalized_source, signal_strength: signal })
}

/// The check on a note, and the text that is stored.
pub open spec fn note_check(body: Seq<char>) -> Result<Seq<char>, ErrorView> {
    let text = trim_seq(body);
    if text.len() == 0 || byte_len(text) > 4000 {
        Err(ErrorView::InvalidLead("note must be 1–4,000 characters"@))
    } else {
        Ok(text)
    }
}

/// Checks a note and trims it.
pub fn check_note(body: &str) -> (r: Result<String, AppError>)
    ensures
        outcome(r) == note_check(body@),
{
    let text = trim(body);
    if text.as_str().is_empty() || byte_count(text.as_str()) > 4000 {
        return Err(invalid("note must be 1–4,000 characters"));
    }
    Ok(text)
}


/// What the score reads of one stored evidence item.
pub struct EvidenceRow {
    pub category: String,
    pub supports_qualification: i64,
    pub confidence: String,
}

/// The qualification of a lead computed from its evidence.
pub struct LeadScore {
    /// Points between 0 and 100.
    pub qualification_score: i64,
    /// `low`, `medium` or `high`.
    pub confidence_level: String,
    /// Each category's contribution, in the order categories first appear.
    pub score_explanation: String,
}

pub open spec fn abs_int(x: int) -> int {
    if x < 0 {
        -x
    } else {
        x
    }
}

/// The direction that counts for category `c`: among its evidence, the one
/// of largest magnitude, the later one winning a tie; `None` without evidence.
pub open spec fn strongest_direction_of(rows: Seq<EvidenceRow>, c: Seq<char>) -> Option<i64>
    decreases rows.len(),
{
    if rows.len() == 0 {
        None
    } else {
        let prev = strongest_direction_of(rows.drop_last(), c);
        let d = rows.last().supports_qualification;
        if rows.last().category@ == c {
            match prev {
                None => Some(d),
                Some(p) => if abs_int(d as int) >= abs_int(p as int) {
                    Some(d)
                } else {
                    Some(p)
                },
            }
        } else {
            prev
        }
    }
}

/// Points that category `c` contributes: its weight times its strongest direction.
pub open spec fn contribution_of(rows: Seq<EvidenceRow>, c: Seq<char>) -> int {
    match strongest_direction_of(rows, c) {
        Some(d) => category_weight_of(c) * d,
        None => 0,
    }
}

/// Sum of the contributions of the first `k` scoring categories.
pub open spec fn contributions_total(rows: Seq<EvidenceRow>, k: nat) -> int
    decreases k,
{
    if k == 0 {
        0
    } else {
        contributions_total(rows, (k - 1) as nat) + contribution_of(
            rows,
            scoring_categories()[k - 1],
        )
    }
}

pub open spec fn clamp_int(x: int, lo: int, hi: int) -> int {
    if x < lo {
        lo
    } else if x > hi {
        hi
    } else {
        x
    }
}

/// The qualification score: every category contributes once, and the sum
/// is clamped to 0–100.
pub open spec fn qualification_score_of(rows: Seq<EvidenceRow>) -> int {
    clamp_int(contributions_total(rows, 12), 0, 100)
}

/// Number of evidence items of high confidence.
pub open spec fn high_count(rows: Seq<EvidenceRow>) -> nat
    decreases rows.len(),
{
    if rows.len() == 0 {
        0
    } else {
        high_count(rows.drop_last()) + if rows.last().confidence@ == "high"@ {
            1nat
        } else {
            0nat
        }
    }
}

/// Confidence in the score: high with five items of which three are of high
/// confidence, medium with three items, else low.
pub open spec fn confidence_level_of(rows: Seq<EvidenceRow>) -> Seq<char> {
    if rows.len() >= 5 && high_count(rows) >= 3 {
        "high"@
    } else if rows.len() >= 3 {
        "medium"@
    } else {
        "low"@
    }
}

/// The distinct categories of `rows`, in the order they first appear.
pub open spec fn categories_seen(rows: Seq<EvidenceRow>) -> Seq<Seq<char>>
    decreases rows.len(),
{
    if rows.len() == 0 {
        Seq::empty()
    } else {
        let prev = categories_seen(rows.drop_last());
        if prev.contains(rows.last().category@) {
            prev
        } else {
            prev.push(rows.last().category@)
        }
    }
}

/// `parts` joined with `sep` between consecutive parts.
pub open spec fn join_seq(parts: Seq<Seq<char>>, sep: Seq<char>) -> Seq<char>
    decreases parts.len(),
{
    if parts.len() == 0 {
        Seq::empty()
    } else if parts.len() == 1 {
        parts[0]
    } else {
        join_seq(parts.drop_last(), sep) + sep + parts.last()
    }
}

/// One category's line of the explanation, such as `multi unit: +15`.
pub open spec fn explanation_entry(rows: Seq<EvidenceRow>, c: Seq<char>) -> Seq<char> {
    replace_seq(c, "_"@, " "@) + ": "@ + signed_decimal_seq(contribution_of(rows, c))
}

/// The explanation of the score: one entry per category seen, joined by `; `.
pub open spec fn explanation_of(rows: Seq<EvidenceRow>) -> Seq<char> {
    join_seq(categories_seen(rows).map_values(|c: Seq<char>| explanation_entry(rows, c)), "; "@)
}

/// The direction that counts for `category` among `rows`.
pub fn strongest_direction(rows: &Vec<EvidenceRow>, category: &str) -> (r: Option<i64>)
    ensures
        r == strongest_direction_of(rows@, category@),
{
    let mut current: Option<i64> = None;
    let mut i: usize = 0;
    while i < rows.len()
        invariant
            i <= rows@.len(),
            current == strongest_direction_of(rows@.take(i as int), category@),
        decreases rows@.len() - i,
    {
        assert(rows@.take(i + 1).drop_last() =~= rows@.take(i as int));
        let d = rows[i].supports_qualification;
        if str_eq(rows[i].category.as_str(), category) {
            current = match current {
                None => Some(d),
                Some(p) => {
                    let da: i128 = if d < 0 { -(d as i128) } else { d as i128 };
                    let pa: i128 = if p < 0 { -(p as i128) } else { p as i128 };
                    if da >= pa {
                        Some(d)
                    } else {
                        Some(p)
                    }
                },
            };
        }
        i += 1;
    }
    assert(rows@.take(rows@.len() as int) =~= rows@);
    current
}

proof fn lemma_contribution_bound(w: int, d: int)
    requires
        0 <= w <= 40,
        i64::MIN <= d <= i64::MAX,
    ensures
        -40 * 0x8000_0000_0000_0000 <= w * d <= 40 * 0x8000_0000_0000_0000,
{
    assert(-40 * 0x8000_0000_0000_0000 <= w * d <= 40 * 0x8000_0000_0000_0000) by (nonlinear_arith)
        requires
            0 <= w <= 40,
            -0x8000_0000_0000_0000 <= d <= 0x8000_0000_0000_0000,
    ;
}

/// Points that `category` contributes among `rows`.
pub fn contribution(rows: &Vec<EvidenceRow>, category: &str) -> (r: i128)
    ensures
        r == contribution_of(rows@, category@),
        -40 * 0x8000_0000_0000_0000 <= r <= 40 * 0x8000_0000_0000_0000,
{
    let w = category_weight(category);
    match strongest_direction(rows, category) {
        Some(d) => {
            proof {
                lemma_contribution_bound(w as int, d as int);
            }
            (w as i128) * (d as i128)
        },
        None => 0,
    }
}

/// The qualification score of a lead with evidence `rows`.
pub fn qualification_score(rows: &Vec<EvidenceRow>) -> (r: i64)
    ensures
        r == qualification_score_of(rows@),
        0 <= r <= 100,
{
    let names = category_names();
    let mut total: i128 = 0;
    let mut k: usize = 0;
    while k < names.len()
        invariant
            k <= names@.len() == 12,
            forall|j: int| 0 <= j < 12 ==> #[trigger] names@[j]@ == scoring_categories()[j],
            total == contributions_total(rows@, k as nat),
            -(k as int) * 0x14_0000_0000_0000_0000 <= total <= (k as int) * 0x14_0000_0000_0000_0000,
        decreases names@.len() - k,
    {
        let c = contribution(rows, names[k]);
        assert(contributions_total(rows@, (k + 1) as nat) == total + c);
        total = total + c;
        k += 1;
    }
    if total < 0 {
        0
    } else if total > 100 {
        100
    } else {
        total as i64
    }
}

/// Confidence in the score of a lead with evidence `rows`.
pub fn confidence_level(rows: &Vec<EvidenceRow>) -> (r: String)
    ensures
        r@ == confidence_level_of(rows@),
{
    let mut high: usize = 0;
    let mut i: usize = 0;
    while i < rows.len()
        invariant
            i <= rows@.len(),
            high <= i,
            high == high_count(rows@.take(i as int)),
        decreases rows@.len() - i,
    {
        assert(rows@.take(i + 1).drop_last() =~= rows@.take(i as int));
        if str_eq(rows[i].confidence.as_str(), "high") {
            high += 1;
        }
        i += 1;
    }
    assert(rows@.take(rows@.len() as int) =~= rows@);
    if rows.len() >= 5 && high >= 3 {
        "high".to_owned()
    } else if rows.len() >= 3 {
        "medium".to_owned()
    } else {
        "low".to_owned()
    }
}

fn contains_text(list: &Vec<String>, item: &str) -> (r: bool)
    ensures
        r == list@.map_values(|s: String| s@).contains(item@),
{
    let ghost views = list@.map_values(|s: String| s@);
    let mut i: usize = 0;
    while i < list.len()
        invariant
            i <= list@.len(),
            views == list@.map_values(|s: String| s@),
            forall|k: int| 0 <= k < i ==> views[k] != item@,
        decreases list@.len() - i,
    {
        if str_eq(list[i].as_str(), item) {
            assert(views[i as int] == item@);
            return true;
        }
        i += 1;
    }
    false
}

/// The distinct categories of `rows`, in the order they first appear.
pub fn categories_in_order(rows: &Vec<EvidenceRow>) -> (r: Vec<String>)
    ensures
        r@.map_values(|s: String| s@) == categories_seen(rows@),
{
    let mut seen: Vec<String> = Vec::new();
    let mut i: usize = 0;
    while i < rows.len()
        invariant
            i <= rows@.len(),
            seen@.map_values(|s: String| s@) == categories_seen(rows@.take(i as int)),
        decreases rows@.len() - i,
    {
        assert(rows@.take(i + 1).drop_last() =~= rows@.take(i as int));
        let category = rows[i].category.as_str();
        if !contains_text(&seen, category) {
            let ghost before = seen@;
            seen.push(category.to_owned());
            assert(seen@.map_values(|s: String| s@) =~= before.map_values(|s: String| s@).push(
                category@,
            ));
        }
        i += 1;
    }
    assert(rows@.take(rows@.len() as int) =~= rows@);
    seen
}

/// The explanation of the score of a lead with evidence `rows`.
pub fn score_explanation(rows: &Vec<EvidenceRow>) -> (r: String)
    ensures
        r@ == explanation_of(rows@),
{
    let seen = categories_in_order(rows);
    let ghost parts = categories_seen(rows@).map_values(|c: Seq<char>| explanation_entry(rows@, c));
    let mut out = String::new();
    let mut i: usize = 0;
    while i < seen.len()
        invariant
            i <= seen@.len(),
            seen@.map_values(|s: String| s@) == categories_seen(rows@),
            parts == categories_seen(rows@).map_values(|c: Seq<char>| explanation_entry(rows@, c)),
            out@ == join_seq(parts.take(i as int), "; "@),
        decreases seen@.len() - i,
    {
        let c = seen[i].as_str();
        assert(c@ == categories_seen(rows@)[i as int]);
        proof {
            reveal_strlit("_");
        }
        let name = replace_all(c, "_", " ");
        let labelled = concat_str(name.as_str(), ": ");
        let points = signed_decimal(contribution(rows, c));
        let entry = concat_str(labelled.as_str(), points.as_str());
        assert(entry@ == parts[i as int]);
        assert(parts.take(i + 1).drop_last() =~= parts.take(i as int));
        if i == 0 {
            out = entry;
            assert(parts.take(1) =~= seq![parts[0]]);
        } else {
            let joined = concat_str(out.as_str(), "; ");
            out = concat_str(joined.as_str(), entry.as_str());
        }
        i += 1;
    }
    assert(parts.take(seen@.len() as int) =~= parts);
    out
}

/// The score, its confidence and its explanation for evidence `rows`.
pub fn score_evidence(rows: &Vec<EvidenceRow>) -> (r: LeadScore)
    ensures
        r.qualification_score == qualification_score_of(rows@),
        r.confidence_level@ == confidence_level_of(rows@),
        r.score_explanation@ == explanation_of(rows@),
{
    LeadScore {
        qualification_score: qualification_score(rows),
        confidence_level: confidence_level(rows),
        score_explanation: score_explanation(rows),
    }
}


/// The score always lies between 0 and 100.
pub proof fn law_score_in_range(rows: Seq<EvidenceRow>)
    ensures
        0 <= qualification_score_of(rows) <= 100,
{
}

/// Each category of the evidence appears exactly once in the explanation.
pub proof fn law_each_category_explained_once(rows: Seq<EvidenceRow>)
    ensures
        categories_seen(rows).no_duplicates(),
        forall|c: Seq<char>|
            categories_seen(rows).contains(c) <==> exists|i: int|
                0 <= i < rows.len() && (#[trigger] rows[i]).category@ == c,
    decreases rows.len(),
{
    if rows.len() > 0 {
        let prev = rows.drop_last();
        law_each_category_explained_once(prev);
        let seen = categories_seen(rows);
        assert forall|c: Seq<char>|
            seen.contains(c) <==> exists|i: int| 0 <= i < rows.len() && (#[trigger] rows[i]).category@ == c by {
            if seen.contains(c) {
                if categories_seen(prev).contains(c) {
                    let i = choose|i: int| 0 <= i < prev.len() && (#[trigger] prev[i]).category@ == c;
                    assert(rows[i] == prev[i]);
                } else {
                    assert(rows[rows.len() - 1].category@ == c);
                }
            }
            if exists|i: int| 0 <= i < rows.len() && (#[trigger] rows[i]).category@ == c {
                let i = choose|i: int| 0 <= i < rows.len() && (#[trigger] rows[i]).category@ == c;
                if i < rows.len() - 1 {
                    assert(prev[i] == rows[i]);
                    assert(categories_seen(prev).contains(c));
                    if !categories_seen(prev).contains(rows.last().category@) {
                        assert(seen[categories_seen(prev).index_of(c)] == c);
                    }
                } else {
                    if !categories_seen(prev).contains(c) {
                        assert(seen[seen.len() - 1] == c);
                    }
                }
            }
        }
    }
}

/// What one more evidence item changes in a category's contribution: its
/// direction's sign decides the sign of the change.
proof fn lemma_contribution_after(rows: Seq<EvidenceRow>, row: EvidenceRow, c: Seq<char>)
    ensures
        row.supports_qualification <= 0 ==> contribution_of(rows.push(row), c) <= contribution_of(rows, c),
        row.supports_qualification >= 0 ==> contribution_of(rows.push(row), c) >= contribution_of(rows, c),
{
    assert(rows.push(row).drop_last() =~= rows);
    let w = category_weight_of(c);
    let d = row.supports_qualification as int;
    if row.category@ == c {
        match strongest_direction_of(rows, c) {
            None => {
                assert(d <= 0 ==> w * d <= 0) by (nonlinear_arith)
                    requires
                        0 <= w,
                ;
                assert(d >= 0 ==> w * d >= 0) by (nonlinear_arith)
                    requires
                        0 <= w,
                ;
            },
            Some(p) => {
                let p = p as int;
                if abs_int(d) >= abs_int(p) {
                    assert(d <= 0 ==> w * d <= w * p) by (nonlinear_arith)
                        requires
                            0 <= w,
                            abs_int(d) >= abs_int(p),
                    ;
                    assert(d >= 0 ==> w * d >= w * p) by (nonlinear_arith)
                        requires
                            0 <= w,
                            abs_int(d) >= abs_int(p),
                    ;
                }
            },
        }
    }
}

proof fn lemma_total_after(rows: Seq<EvidenceRow>, row: EvidenceRow, k: nat)
    ensures
        row.supports_qualification <= 0 ==> contributions_total(rows.push(row), k) <= contributions_total(rows, k),
        row.supports_qualification >= 0 ==> contributions_total(rows.push(row), k) >= contributions_total(rows, k),
    decreases k,
{
    if k > 0 {
        lemma_total_after(rows, row, (k - 1) as nat);
        lemma_contribution_after(rows, row, scoring_categories()[k - 1]);
    }
}

/// Evidence against qualification never raises the score, and evidence for
/// it never lowers the score.
pub proof fn law_direction_moves_score(rows: Seq<EvidenceRow>, row: EvidenceRow)
    ensures
        row.supports_qualification <= 0 ==> qualification_score_of(rows.push(row)) <= qualification_score_of(rows),
        row.supports_qualification >= 0 ==> qualification_score_of(rows.push(row)) >= qualification_score_of(rows),
{
    lemma_total_after(rows, row, 12);
}

/// When every evidence item of category `c` has direction `d`, that
/// direction is the one that counts for `c`, if `c` has evidence at all.
proof fn lemma_uniform_direction(rows: Seq<EvidenceRow>, c: Seq<char>, d: i64)
    requires
        forall|i: int| 0 <= i < rows.len() && (#[trigger] rows[i]).category@ == c ==> rows[i].supports_qualification == d,
    ensures
        (exists|i: int| 0 <= i < rows.len() && (#[trigger] rows[i]).category@ == c) ==> strongest_direction_of(rows, c) == Some(d),
        !(exists|i: int| 0 <= i < rows.len() && (#[trigger] rows[i]).category@ == c) ==> strongest_direction_of(rows, c) is None,
    decreases rows.len(),
{
    if rows.len() > 0 {
        let prev = rows.drop_last();
        assert forall|i: int| 0 <= i < prev.len() && (#[trigger] prev[i]).category@ == c implies prev[i].supports_qualification == d by {
            assert(prev[i] == rows[i]);
        }
        lemma_uniform_direction(prev, c, d);
        if exists|i: int| 0 <= i < prev.len() && (#[trigger] prev[i]).category@ == c {
            let i = choose|i: int| 0 <= i < prev.len() && (#[trigger] prev[i]).category@ == c;
            assert(rows[i] == prev[i]);
        }
        if exists|i: int| 0 <= i < rows.len() && (#[trigger] rows[i]).category@ == c {
            let i = choose|i: int| 0 <= i < rows.len() && (#[trigger] rows[i]).category@ == c;
            if i < rows.len() - 1 {
                assert(prev[i] == rows[i]);
            } else {
                assert(rows.last() == rows[i]);
            }
        } else {
            assert(rows.last() == rows[rows.len() - 1]);
        }
    }
}

/// Repeating the direction that already counts for a category leaves that
/// category's contribution, and every other one, as it was.
proof fn lemma_total_unchanged(rows: Seq<EvidenceRow>, row: EvidenceRow, k: nat)
    requires
        strongest_direction_of(rows, row.category@) == Some(row.supports_qualification),
    ensures
        contributions_total(rows.push(row), k) == contributions_total(rows, k),
    decreases k,
{
    assert(rows.push(row).drop_last() =~= rows);
    if k > 0 {
        lemma_total_unchanged(rows, row, (k - 1) as nat);
        let c = scoring_categories()[k - 1];
        assert(contribution_of(rows.push(row), c) == contribution_of(rows, c));
    }
}

/// A category counts at most once: more evidence in a category that already
/// has evidence, all of the same direction, leaves the score unchanged.
pub proof fn law_repeated_evidence_keeps_score(rows: Seq<EvidenceRow>, row: EvidenceRow)
    requires
        exists|i: int| 0 <= i < rows.len() && (#[trigger] rows[i]).category@ == row.category@,
        forall|i: int|
            0 <= i < rows.len() && (#[trigger] rows[i]).category@ == row.category@
                ==> rows[i].supports_qualification == row.supports_qualification,
    ensures
        qualification_score_of(rows.push(row)) == qualification_score_of(rows),
{
    lemma_uniform_direction(rows, row.category@, row.supports_qualification);
    lemma_total_unchanged(rows, row, 12);
}

/// Later evidence of a category wins a tie: an item whose direction is at
/// least as strong as the one that counts so far for its category becomes
/// the one that counts, and the category then contributes its weight times
/// that direction.
pub proof fn law_later_evidence_wins_ties(rows: Seq<EvidenceRow>, row: EvidenceRow)
    requires
        match strongest_direction_of(rows, row.category@) {
            None => true,
            Some(p) => abs_int(row.supports_qualification as int) >= abs_int(p as int),
        },
    ensures
        strongest_direction_of(rows.push(row), row.category@) == Some(row.supports_qualification),
        contribution_of(rows.push(row), row.category@) == category_weight_of(row.category@)
            * row.supports_qualification,
{
    assert(rows.push(row).drop_last() =~= rows);
}

/// The direction that counts for a category is that of its latest item of
/// greatest magnitude: no item of the category is stronger, every later
/// item of it is weaker; a category without evidence has none.
pub proof fn law_strongest_direction_is_latest_strongest(rows: Seq<EvidenceRow>, c: Seq<char>)
    ensures
        strongest_direction_of(rows, c) is None <==> forall|j: int|
            0 <= j < rows.len() ==> (#[trigger] rows[j]).category@ != c,
        strongest_direction_of(rows, c) matches Some(d) ==> exists|i: int|
            #![trigger rows[i]]
            0 <= i < rows.len() && rows[i].category@ == c && rows[i].supports_qualification == d
                && (forall|j: int|
                0 <= j < rows.len() && (#[trigger] rows[j]).category@ == c ==> abs_int(
                    rows[j].supports_qualification as int,
                ) <= abs_int(d as int)) && (forall|j: int|
                i < j < rows.len() && (#[trigger] rows[j]).category@ == c ==> abs_int(
                    rows[j].supports_qualification as int,
                ) < abs_int(d as int)),
    decreases rows.len(),
{
    if rows.len() > 0 {
        let prev = rows.drop_last();
        let n = rows.len() - 1;
        law_strongest_direction_is_latest_strongest(prev, c);
        assert forall|j: int| 0 <= j < prev.len() implies prev[j] == rows[j] by {}
        let last = rows[n];
        assert(rows.last() == last);
        if last.category@ == c {
            let d = last.supports_qualification;
            match strongest_direction_of(prev, c) {
                None => {
                    assert(rows[n].category@ == c);
                    assert forall|j: int|
                        0 <= j < rows.len() && (#[trigger] rows[j]).category@ == c implies abs_int(
                        rows[j].supports_qualification as int,
                    ) <= abs_int(d as int) by {
                        if j < n {
                            assert(prev[j].category@ != c);
                        }
                    }
                },
                Some(p) => {
                    let i = choose|i: int|
                        #![trigger prev[i]]
                        0 <= i < prev.len() && prev[i].category@ == c && prev[i].supports_qualification == p
                            && (forall|j: int|
                            0 <= j < prev.len() && (#[trigger] prev[j]).category@ == c ==> abs_int(
                                prev[j].supports_qualification as int,
                            ) <= abs_int(p as int)) && (forall|j: int|
                            i < j < prev.len() && (#[trigger] prev[j]).category@ == c ==> abs_int(
                                prev[j].supports_qualification as int,
                            ) < abs_int(p as int));
                    if abs_int(d as int) >= abs_int(p as int) {
                        assert(rows[n].category@ == c);
                        assert forall|j: int|
                            0 <= j < rows.len() && (#[trigger] rows[j]).category@ == c implies abs_int(
                            rows[j].supports_qualification as int,
                        ) <= abs_int(d as int) by {
                            if j < n {
                                assert(prev[j].category@ == c);
                            }
                        }
                    } else {
                        assert(rows[i] == prev[i]);
                        assert forall|j: int|
                            0 <= j < rows.len() && (#[trigger] rows[j]).category@ == c implies abs_int(
                            rows[j].supports_qualification as int,
                        ) <= abs_int(p as int) by {
                            if j < n {
                                assert(prev[j].category@ == c);
                            }
                        }
                        assert forall|j: int|
                            i < j < rows.len() && (#[trigger] rows[j]).category@ == c implies abs_int(
                            rows[j].supports_qualification as int,
                        ) < abs_int(p as int) by {
                            if j < n {
                                assert(prev[j].category@ == c);
                            }
                        }
                    }
                },
            }
        } else {
            match strongest_direction_of(prev, c) {
                None => {
                    assert forall|j: int| 0 <= j < rows.len() implies (#[trigger] rows[j]).category@ != c by {
                        if j < n {
                            assert(prev[j].category@ != c);
                        }
                    }
                },
                Some(p) => {
                    let i = choose|i: int|
                        #![trigger prev[i]]
                        0 <= i < prev.len() && prev[i].category@ == c && prev[i].supports_qualification == p
                            && (forall|j: int|
                            0 <= j < prev.len() && (#[trigger] prev[j]).category@ == c ==> abs_int(
                                prev[j].supports_qualification as int,
                            ) <= abs_int(p as int)) && (forall|j: int|
                            i < j < prev.len() && (#[trigger] prev[j]).category@ == c ==> abs_int(
                                prev[j].supports_qualification as int,
                            ) < abs_int(p as int));
                    assert(rows[i] == prev[i]);
                    assert(prev[i].category@ == c);
                    assert forall|j: int|
                        0 <= j < rows.len() && (#[trigger] rows[j]).category@ == c implies abs_int(
                        rows[j].supports_qualification as int,
                    ) <= abs_int(p as int) by {
                        if j < n {
                            assert(prev[j].category@ == c);
                        }
                    }
                    assert forall|j: int|
                        i < j < rows.len() && (#[trigger] rows[j]).category@ == c implies abs_int(
                        rows[j].supports_qualification as int,
                    ) < abs_int(p as int) by {
                        if j < n {
                            assert(prev[j].category@ == c);
                        }
                    }
                },
            }
        }
    }
}

/// Rank of a confidence level: 0 for low, 1 for medium, 2 for high.
pub open spec fn level_rank(level: Seq<char>) -> int {
    if level == "high"@ {
        2
    } else if level == "medium"@ {
        1
    } else {
        0
    }
}

/// More evidence never lowers the confidence in the score.
pub proof fn law_confidence_never_drops(rows: Seq<EvidenceRow>, row: EvidenceRow)
    ensures
        level_rank(confidence_level_of(rows.push(row))) >= level_rank(confidence_level_of(rows)),
{
    reveal_strlit("high");
    reveal_strlit("medium");
    reveal_strlit("low");
    assert(rows.push(row).drop_last() =~= rows);
    assert("medium"@ != "high"@) by {
        assert("medium"@.len() != "high"@.len());
    }
    assert("low"@ != "high"@) by {
        assert("low"@[0] != "high"@[0]);
    }
    assert("low"@ != "medium"@) by {
        assert("low"@.len() != "medium"@.len());
    }
}

} // verus!
