//! Exports and backups: spreadsheet-safe CSV cells, export records, backup
//! retention and timestamped file names.

use vstd::prelude::*;
use crate::error::{AppError, invalid};
use crate::contacts::last_index_of;
use crate::text::{
    chars_of, lemma_seq_less_irreflexive, lemma_seq_less_transitive, seq_less, text_less, concat_str, decimal, decimal_seq, opt_seq, parse_usize, parsed_usize, str_eq, trim_start,
    trim_start_seq,
};

verus! {

/// A lead as exports write it.
pub struct ExportLead {
    pub id: String,
    pub company_name: String,
    pub official_website: String,
    pub country: String,
    pub language: String,
    pub city_or_service_area: Option<String>,
    pub status: String,
    pub qualification_score: Option<i64>,
    pub confidence_level: Option<String>,
    pub created_at: String,
    pub updated_at: String,
}

/// Characters that make a spreadsheet read a cell as a formula.
pub open spec fn formula_start(c: char) -> bool {
    c == '=' || c == '+' || c == '-' || c == '@'
}

/// A CSV cell that no spreadsheet reads as a formula: a value whose first
/// non-blank character starts a formula gets a leading `'`.
pub open spec fn safe_csv_seq(value: Seq<char>) -> Seq<char> {
    let t = trim_start_seq(value);
    if t.len() > 0 && formula_start(t[0]) {
        seq!['\''] + value
    } else {
        value
    }
}

/// `value` as a CSV cell that no spreadsheet reads as a formula.
pub fn safe_csv(value: &str) -> (r: String)
    ensures
        r@ == safe_csv_seq(value@),
{
    let t = trim_start(value);
    let tv = crate::text::chars_of(t.as_str());
    proof {
        reveal_strlit("'");
    }
    if tv.len() > 0 && (tv[0] == '=' || tv[0] == '+' || tv[0] == '-' || tv[0] == '@') {
        concat_str("'", value)
    } else {
        value.to_owned()
    }
}

/// Formats an export can be written in.
#[derive(Debug, Clone, Copy, PartialEq, Eq, Structural)]
pub enum ExportFormat {
    Csv,
    Json,
}

/// The export format named `format`: `csv` or `json`.
pub fn export_format(format: &str) -> (r: Result<ExportFormat, AppError>)
    ensures
        format@ == "csv"@ ==> r == Ok::<ExportFormat, AppError>(ExportFormat::Csv),
        format@ == "json"@ ==> r == Ok::<ExportFormat, AppError>(ExportFormat::Json),
        format@ != "csv"@ && format@ != "json"@ ==> (r matches Err(e) && e@
            == crate::error::ErrorView::InvalidLead("export format must be CSV or JSON"@)),
{
    proof {
        reveal_strlit("csv");
        reveal_strlit("json");
        assert("json"@.len() != "csv"@.len());
    }
    if str_eq(format, "csv") {
        Ok(ExportFormat::Csv)
    } else if str_eq(format, "json") {
        Ok(ExportFormat::Json)
    } else {
        Err(invalid("export format must be CSV or JSON"))
    }
}

/// The heading row of a CSV export.
pub open spec fn csv_header_seq() -> Seq<Seq<char>> {
    seq![
        "Lead ID"@,
        "Company name"@,
        "Official website"@,
        "Country"@,
        "Language"@,
        "City or service area"@,
        "Status"@,
        "Qualification score"@,
        "Confidence"@,
        "Created"@,
        "Updated"@,
    ]
}

/// Strings taken by their characters.
pub open spec fn texts(v: Seq<String>) -> Seq<Seq<char>> {
    v.map_values(|s: String| s@)
}

/// The heading row of a CSV export.
pub fn csv_header() -> (r: Vec<String>)
    ensures
        texts(r@) == csv_header_seq(),
{
    let r = vec![
        "Lead ID".to_owned(),
        "Company name".to_owned(),
        "Official website".to_owned(),
        "Country".to_owned(),
        "Language".to_owned(),
        "City or service area".to_owned(),
        "Status".to_owned(),
        "Qualification score".to_owned(),
        "Confidence".to_owned(),
        "Created".to_owned(),
        "Updated".to_owned(),
    ];
    assert(texts(r@) =~= csv_header_seq());
    r
}

/// Text of an optional value, empty when absent.
pub open spec fn or_empty(o: Option<Seq<char>>) -> Seq<char> {
    match o {
        Some(s) => s,
        None => Seq::empty(),
    }
}

/// The CSV row of a lead: every text cell made safe; the score written in
/// decimal, or empty.
pub open spec fn csv_record_seq(lead: ExportLead) -> Seq<Seq<char>> {
    seq![
        safe_csv_seq(lead.id@),
        safe_csv_seq(lead.company_name@),
        safe_csv_seq(lead.official_website@),
        safe_csv_seq(lead.country@),
        safe_csv_seq(lead.language@),
        safe_csv_seq(or_empty(opt_seq(lead.city_or_service_area))),
        safe_csv_seq(lead.status@),
        match lead.qualification_score {
            Some(v) => decimal_seq(v as int),
            None => Seq::empty(),
        },
        safe_csv_seq(or_empty(opt_seq(lead.confidence_level))),
        safe_csv_seq(lead.created_at@),
        safe_csv_seq(lead.updated_at@),
    ]
}

fn text_or_empty(o: &Option<String>) -> (r: String)
    ensures
        r@ == or_empty(opt_seq(*o)),
{
    match o {
        Some(s) => s.clone(),
        None => String::new(),
    }
}

/// The CSV row of a lead.
pub fn csv_record(lead: &ExportLead) -> (r: Vec<String>)
    ensures
        texts(r@) == csv_record_seq(*lead),
{
    let city = text_or_empty(&lead.city_or_service_area);
    let confidence = text_or_empty(&lead.confidence_level);
    let score = match lead.qualification_score {
        Some(v) => decimal(v),
        None => String::new(),
    };
    let r = vec![
        safe_csv(lead.id.as_str()),
        safe_csv(lead.company_name.as_str()),
        safe_csv(lead.official_website.as_str()),
        safe_csv(lead.country.as_str()),
        safe_csv(lead.language.as_str()),
        safe_csv(city.as_str()),
        safe_csv(lead.status.as_str()),
        score,
        safe_csv(confidence.as_str()),
        safe_csv(lead.created_at.as_str()),
        safe_csv(lead.updated_at.as_str()),
    ];
    assert(texts(r@) =~= csv_record_seq(*lead));
    r
}

/// How many backups to keep for a stored setting: its number, 10 when it is
/// not one, kept within 1–30.
pub open spec fn backup_retention_of(setting: Seq<char>) -> usize {
    let n = match parsed_usize(setting) {
        Some(n) => n,
        None => 10,
    };
    if n < 1 {
        1
    } else if n > 30 {
        30
    } else {
        n
    }
}

/// How many backups to keep for a stored setting.
pub fn backup_retention(setting: &str) -> (r: usize)
    ensures
        r == backup_retention_of(setting@),
        1 <= r <= 30,
{
    let n = match parse_usize(setting) {
        Some(n) => n,
        None => 10,
    };
    if n < 1 {
        1
    } else if n > 30 {
        30
    } else {
        n
    }
}

/// `prefix-stamp.extension`.
pub open spec fn timestamped_name_seq(prefix: Seq<char>, stamp: Seq<char>, extension: Seq<char>) -> Seq<
    char,
> {
    prefix + "-"@ + stamp + "."@ + extension
}

/// The file name `prefix-stamp.extension`.
pub fn timestamped_file_name(prefix: &str, stamp: &str, extension: &str) -> (r: String)
    ensures
        r@ == timestamped_name_seq(prefix@, stamp@, extension@),
{
    let a = concat_str(prefix, "-");
    let b = concat_str(a.as_str(), stamp);
    let c = concat_str(b.as_str(), ".");
    concat_str(c.as_str(), extension)
}

/// ASCII digits only (possibly none).
pub open spec fn digits_only(s: Seq<char>) -> bool {
    forall|i: int| 0 <= i < s.len() ==> crate::text::is_ascii_digit(#[trigger] s[i])
}

/// The year as `%Y` writes it: four digits for years 0–9999, otherwise a
/// sign followed by at least four digits.
pub open spec fn is_year_text(y: Seq<char>) -> bool {
    ||| y.len() == 4 && digits_only(y)
    ||| y.len() >= 5 && (y[0] == '+' || y[0] == '-') && digits_only(y.drop_first())
}

/// `MMDD-HHMMSS-mmm`: month, day, `-`, hour, minute, second, `-`, milliseconds.
pub open spec fn is_time_tail(t: Seq<char>) -> bool {
    &&& t.len() == 15
    &&& digits_only(t.subrange(0, 4))
    &&& t[4] == '-'
    &&& digits_only(t.subrange(5, 11))
    &&& t[11] == '-'
    &&& digits_only(t.subrange(12, 15))
}

/// A time written with `%Y%m%d-%H%M%S-%3f`, such as `20240101-101010-123`.
pub open spec fn is_utc_stamp(s: Seq<char>) -> bool {
    s.len() >= 19 && is_year_text(s.subrange(0, s.len() - 15)) && is_time_tail(
        s.subrange(s.len() - 15, s.len() as int),
    )
}

/// The current UTC time as `%Y%m%d-%H%M%S-%3f`.
///
/// Calls `chrono::Utc::now` and formats it. chrono writes the month, day,
/// hour, minute and second as two zero-padded digits each, the milliseconds
/// as three, and the year as four digits (with a sign and at least four
/// digits outside 0–9999). Which time it is depends on the clock, and that is
/// not stated.
#[verifier::external_body]
fn utc_stamp() -> (r: String)
    ensures
        is_utc_stamp(r@),
{
    chrono::Utc::now().format("%Y%m%d-%H%M%S-%3f").to_string()
}

/// A file name `prefix-<current UTC time>.extension`, the time written as
/// `%Y%m%d-%H%M%S-%3f`.
pub fn new_timestamped_file_name(prefix: &str, extension: &str) -> (r: String)
    ensures
        exists|stamp: Seq<char>|
            is_utc_stamp(stamp) && r@ == timestamped_name_seq(prefix@, stamp, extension@),
{
    let stamp = utc_stamp();
    let r = timestamped_file_name(prefix, stamp.as_str(), extension);
    assert(is_utc_stamp(stamp@) && r@ == timestamped_name_seq(prefix@, stamp@, extension@));
    r
}

/// Whether a file name has the extension `db` (the text after its last
/// dot, when that dot does not start the name).
pub open spec fn has_db_extension(name: Seq<char>) -> bool {
    match last_index_of(name, '.') {
        Some(i) => i > 0 && name.subrange(i + 1, name.len() as int) == "db"@,
        None => false,
    }
}

/// Whether the file named `name` has the extension `db`.
pub fn is_backup_file(name: &str) -> (r: bool)
    ensures
        r == has_db_extension(name@),
{
    let v = chars_of(name);
    let n = v.len();
    let mut j: usize = n;
    assert(v@.subrange(0, n as int) =~= v@);
    while j > 0 && v[j - 1] != '.'
        invariant
            j <= n == v@.len(),
            last_index_of(v@.subrange(0, j as int), '.') == last_index_of(v@, '.'),
        decreases j,
    {
        assert(v@.subrange(0, j as int).drop_last() =~= v@.subrange(0, j - 1));
        j -= 1;
    }
    if j == 0 {
        assert(v@.subrange(0, 0) =~= Seq::<char>::empty());
        return false;
    }
    assert(v@.subrange(0, j as int).last() == '.');
    if j == 1 {
        return false;
    }
    let ext = crate::text::string_from_range(&v, j, n);
    str_eq(ext.as_str(), "db")
}

/// How many backups rank ahead of `names[i]` among `names[..k]`: those with a
/// later name, and those of the same name that come earlier (newest first,
/// ties in listing order).
pub open spec fn ahead_count(names: Seq<String>, i: int, k: int) -> nat
    decreases k,
{
    if k <= 0 {
        0
    } else {
        let j = k - 1;
        ahead_count(names, i, j) + if has_db_extension(names[j]@) && (seq_less(names[i]@, names[j]@)
            || (j < i && names[j]@ == names[i]@)) {
            1nat
        } else {
            0nat
        }
    }
}

/// Whether backup `names[i]` is deleted when `keep` backups are retained.
pub open spec fn pruned(names: Seq<String>, i: int, keep: usize) -> bool {
    has_db_extension(names[i]@) && ahead_count(names, i, names.len() as int) >= keep
}

/// Indices below `k` of the backups that are deleted, in increasing order.
pub open spec fn pruned_indices(names: Seq<String>, keep: usize, k: int) -> Seq<usize>
    decreases k,
{
    if k <= 0 {
        Seq::empty()
    } else if pruned(names, k - 1, keep) {
        pruned_indices(names, keep, k - 1).push((k - 1) as usize)
    } else {
        pruned_indices(names, keep, k - 1)
    }
}

/// The backups to delete from a directory listing so that the `keep` newest
/// (by file name) remain. Files without the `db` extension are never chosen.
pub fn backups_to_prune(names: &Vec<String>, keep: usize) -> (r: Vec<usize>)
    ensures
        r@ == pruned_indices(names@, keep, names@.len() as int),
{
    let n = names.len();
    let mut db: Vec<bool> = Vec::new();
    let mut t: usize = 0;
    while t < n
        invariant
            t <= n == names@.len(),
            db@.len() == t,
            forall|x: int| 0 <= x < t ==> db@[x] == has_db_extension(#[trigger] names@[x]@),
        decreases n - t,
    {
        db.push(is_backup_file(names[t].as_str()));
        t += 1;
    }
    let mut out: Vec<usize> = Vec::new();
    let mut i: usize = 0;
    while i < n
        invariant
            i <= n == names@.len(),
            db@.len() == n,
            forall|x: int| 0 <= x < n ==> db@[x] == has_db_extension(#[trigger] names@[x]@),
            out@ == pruned_indices(names@, keep, i as int),
        decreases n - i,
    {
        if db[i] {
            let mut ahead: usize = 0;
            let mut k: usize = 0;
            while k < n
                invariant
                    k <= n == names@.len(),
                    i < n,
                    db@.len() == n,
                    forall|x: int| 0 <= x < n ==> db@[x] == has_db_extension(#[trigger] names@[x]@),
                    ahead <= k,
                    ahead == ahead_count(names@, i as int, k as int),
                decreases n - k,
            {
                if db[k] && (text_less(names[i].as_str(), names[k].as_str()) || (k < i && str_eq(
                    names[k].as_str(),
                    names[i].as_str(),
                ))) {
                    ahead += 1;
                }
                k += 1;
            }
            if ahead >= keep {
                out.push(i);
            }
        }
        i += 1;
    }
    out
}

/// No cell of a CSV export starts, after blanks, with a formula character.
pub proof fn law_safe_csv_never_formula(value: Seq<char>)
    ensures
        ({
            let t = trim_start_seq(safe_csv_seq(value));
            t.len() > 0 ==> !formula_start(t[0])
        }),
        safe_csv_seq(value) == value || safe_csv_seq(value) == seq!['\''] + value,
{
    let t = trim_start_seq(value);
    if t.len() > 0 && formula_start(t[0]) {
        let r = seq!['\''] + value;
        assert(r[0] == '\'');
        assert(crate::text::kept_start_from(r, 0) == 0);
        assert(r.subrange(0, r.len() as int) =~= r);
    }
}

/// `cell` writes `field`: as it is, or behind a leading `'`.
pub open spec fn cell_holds(cell: Seq<char>, field: Seq<char>) -> bool {
    cell == field || cell == seq!['\''] + field
}

/// A lead's CSV row has one cell per heading, and each cell writes the
/// matching field of the lead: its text, protected against formulas, the
/// city and confidence only when the lead has them, the score in decimal.
/// No cell is read as a formula.
pub proof fn law_csv_row_keeps_every_field(lead: ExportLead)
    ensures
        csv_record_seq(lead).len() == csv_header_seq().len(),
        cell_holds(csv_record_seq(lead)[0], lead.id@),
        cell_holds(csv_record_seq(lead)[1], lead.company_name@),
        cell_holds(csv_record_seq(lead)[2], lead.official_website@),
        cell_holds(csv_record_seq(lead)[3], lead.country@),
        cell_holds(csv_record_seq(lead)[4], lead.language@),
        match lead.city_or_service_area {
            Some(c) => cell_holds(csv_record_seq(lead)[5], c@),
            None => csv_record_seq(lead)[5].len() == 0,
        },
        cell_holds(csv_record_seq(lead)[6], lead.status@),
        match lead.qualification_score {
            Some(v) => csv_record_seq(lead)[7] == decimal_seq(v as int),
            None => csv_record_seq(lead)[7].len() == 0,
        },
        match lead.confidence_level {
            Some(c) => cell_holds(csv_record_seq(lead)[8], c@),
            None => csv_record_seq(lead)[8].len() == 0,
        },
        cell_holds(csv_record_seq(lead)[9], lead.created_at@),
        cell_holds(csv_record_seq(lead)[10], lead.updated_at@),
        forall|k: int|
            0 <= k < 11 && k != 7 ==> {
                let t = trim_start_seq(#[trigger] csv_record_seq(lead)[k]);
                t.len() > 0 ==> !formula_start(t[0])
            },
{
    let row = csv_record_seq(lead);
    law_safe_csv_never_formula(lead.id@);
    law_safe_csv_never_formula(lead.company_name@);
    law_safe_csv_never_formula(lead.official_website@);
    law_safe_csv_never_formula(lead.country@);
    law_safe_csv_never_formula(lead.language@);
    law_safe_csv_never_formula(or_empty(opt_seq(lead.city_or_service_area)));
    law_safe_csv_never_formula(lead.status@);
    law_safe_csv_never_formula(or_empty(opt_seq(lead.confidence_level)));
    law_safe_csv_never_formula(lead.created_at@);
    law_safe_csv_never_formula(lead.updated_at@);
    assert(trim_start_seq(Seq::<char>::empty()).len() == 0) by {
        assert(crate::text::kept_start_from(Seq::<char>::empty(), 0) == 0);
    }
    reveal_strlit("Lead ID");
    assert(csv_header_seq().len() == 11);
}

/// `names[j]` ranks ahead of `names[i]` in newest-first order.
pub open spec fn ranks_ahead(names: Seq<String>, j: int, i: int) -> bool {
    seq_less(names[i]@, names[j]@) || (j < i && names[j]@ == names[i]@)
}

/// A backup with another backup ranking ahead of it has at least one more
/// backup ahead of it than that one.
proof fn lemma_ahead_of_older(names: Seq<String>, i: int, j: int, k: int)
    requires
        0 <= i < names.len(),
        0 <= j < names.len(),
        0 <= k <= names.len(),
        has_db_extension(names[j]@),
        ranks_ahead(names, j, i),
    ensures
        ahead_count(names, i, k) >= ahead_count(names, j, k) + if j < k { 1int } else { 0int },
    decreases k,
{
    if k > 0 {
        let m = k - 1;
        lemma_ahead_of_older(names, i, j, m);
        if seq_less(names[i]@, names[j]@) && seq_less(names[j]@, names[m]@) {
            lemma_seq_less_transitive(names[i]@, names[j]@, names[m]@);
        }
        if m == j {
            lemma_seq_less_irreflexive(names[j]@);
        }
    }
}

/// Pruning keeps the newest backups: no kept backup has an earlier name
/// than a deleted one.
pub proof fn law_pruning_keeps_the_newest(names: Seq<String>, keep: usize, kept: int, deleted: int)
    requires
        0 <= kept < names.len(),
        0 <= deleted < names.len(),
        has_db_extension(names[kept]@),
        !pruned(names, kept, keep),
        pruned(names, deleted, keep),
    ensures
        !seq_less(names[kept]@, names[deleted]@),
{
    if seq_less(names[kept]@, names[deleted]@) {
        lemma_ahead_of_older(names, kept, deleted, names.len() as int);
    }
}

/// Indices of the backups among the first `k` names.
pub open spec fn backup_indices(names: Seq<String>, k: int) -> Set<int> {
    Set::new(|i: int| 0 <= i < k && i < names.len() && has_db_extension(names[i]@))
}

/// Number of backups among the first `k` names.
pub open spec fn backup_count(names: Seq<String>, k: int) -> nat
    decreases k,
{
    if k <= 0 {
        0
    } else {
        backup_count(names, k - 1) + if has_db_extension(names[k - 1]@) {
            1nat
        } else {
            0nat
        }
    }
}

/// The backups that pruning keeps.
pub open spec fn kept_backups(names: Seq<String>, keep: usize) -> Set<int> {
    Set::new(|i: int| 0 <= i < names.len() && has_db_extension(names[i]@) && !pruned(names, i, keep))
}

proof fn lemma_backup_indices(names: Seq<String>, k: int)
    requires
        0 <= k <= names.len(),
    ensures
        backup_indices(names, k).finite(),
        backup_indices(names, k).len() == backup_count(names, k),
    decreases k,
{
    if k == 0 {
        assert(backup_indices(names, 0) =~= Set::empty());
    } else {
        lemma_backup_indices(names, k - 1);
        if has_db_extension(names[k - 1]@) {
            assert(backup_indices(names, k) =~= backup_indices(names, k - 1).insert(k - 1));
        } else {
            assert(backup_indices(names, k) =~= backup_indices(names, k - 1));
        }
    }
}

proof fn lemma_ahead_bound(names: Seq<String>, i: int, k: int)
    requires
        0 <= i < names.len(),
        0 <= k <= names.len(),
        has_db_extension(names[i]@),
    ensures
        ahead_count(names, i, k) + (if i < k { 1int } else { 0int }) <= backup_count(names, k),
    decreases k,
{
    if k > 0 {
        lemma_ahead_bound(names, i, k - 1);
        if k - 1 == i {
            lemma_seq_less_irreflexive(names[i]@);
        }
    }
}

/// Position of backup `i` in newest-first order.
pub open spec fn backup_rank(names: Seq<String>, i: int) -> int {
    ahead_count(names, i, names.len() as int) as int
}

proof fn lemma_rank_injective(names: Seq<String>, i: int, j: int)
    requires
        0 <= i < names.len(),
        0 <= j < names.len(),
        i != j,
        has_db_extension(names[i]@),
        has_db_extension(names[j]@),
    ensures
        backup_rank(names, i) != backup_rank(names, j),
{
    let n = names.len() as int;
    if names[i]@ == names[j]@ {
        if j < i {
            lemma_ahead_of_older(names, i, j, n);
        } else {
            lemma_ahead_of_older(names, j, i, n);
        }
    } else {
        crate::text::lemma_seq_less_total(names[i]@, names[j]@);
        if seq_less(names[i]@, names[j]@) {
            lemma_ahead_of_older(names, i, j, n);
        } else {
            lemma_ahead_of_older(names, j, i, n);
        }
    }
}

/// Pruning keeps exactly `keep` backups, or every backup when there are fewer.
pub proof fn law_pruning_keeps_the_retention_count(names: Seq<String>, keep: usize)
    ensures
        kept_backups(names, keep).finite(),
        kept_backups(names, keep).len() == if keep <= backup_count(names, names.len() as int) {
            keep as nat
        } else {
            backup_count(names, names.len() as int)
        },
{
    let n = names.len() as int;
    let all = backup_indices(names, n);
    let m = backup_count(names, n);
    let rank = |i: int| backup_rank(names, i);
    lemma_backup_indices(names, n);
    assert(vstd::relations::injective_on(rank, all)) by {
        assert forall|a: int, b: int| all.contains(a) && all.contains(b) && #[trigger] rank(a) == #[trigger] rank(b) implies a == b by {
            if a != b {
                lemma_rank_injective(names, a, b);
            }
        }
    }
    let ranks = all.map(rank);
    vstd::set_lib::lemma_map_size(all, ranks, rank);
    vstd::set_lib::lemma_int_range(0, m as int);
    assert(ranks.subset_of(vstd::set_lib::set_int_range(0, m as int))) by {
        assert forall|r: int| ranks.contains(r) implies vstd::set_lib::set_int_range(0, m as int).contains(r) by {
            let i = choose|i: int| all.contains(i) && rank(i) == r;
            lemma_ahead_bound(names, i, n);
        }
    }
    vstd::set_lib::lemma_subset_equality(ranks, vstd::set_lib::set_int_range(0, m as int));
    let kept = kept_backups(names, keep);
    assert(kept.subset_of(all));
    vstd::set_lib::lemma_len_subset(kept, all);
    let low = if keep <= m { keep as int } else { m as int };
    let kept_ranks = kept.map(rank);
    assert(kept_ranks =~= vstd::set_lib::set_int_range(0, low)) by {
        assert forall|r: int| kept_ranks.contains(r) implies vstd::set_lib::set_int_range(0, low).contains(r) by {
            let i = choose|i: int| kept.contains(i) && rank(i) == r;
            lemma_ahead_bound(names, i, n);
        }
        assert forall|r: int| vstd::set_lib::set_int_range(0, low).contains(r) implies kept_ranks.contains(r) by {
            assert(vstd::set_lib::set_int_range(0, m as int).contains(r));
            assert(ranks.contains(r));
            let i = choose|i: int| all.contains(i) && rank(i) == r;
            assert(kept.contains(i));
        }
    }
    vstd::set_lib::lemma_int_range(0, low);
    vstd::set_lib::lemma_map_size(kept, kept_ranks, rank);
}

} // verus!
