//! Editable application settings and their validation.

use vstd::prelude::*;
use crate::error::{AppError, ErrorView, invalid, outcome};
use crate::text::{
    byte_count, byte_len, concat_str, decimal, decimal_seq, ends_with, parse_i64, parsed_i64, seq_ends_with,
    str_eq, trim, trim_seq,
};
use crate::web::{WebUrl, WebUrlView, parse_url, url_parse_result, url_view};

verus! {

/// Settings the user may change.
pub open spec fn editable_key(k: Seq<char>) -> bool {
    ||| k == "fiverr_gig_url"@
    ||| k == "normal_lead_limit"@
    ||| k == "follow_up_delay_days"@
    ||| k == "second_follow_up_enabled"@
    ||| k == "sender_name"@
    ||| k == "sender_business_name"@
    ||| k == "sender_postal_address"@
    ||| k == "opt_out_line_en"@
    ||| k == "opt_out_line_fr"@
    ||| k == "backup_retention_count"@
}

/// Whether `key` names a setting the user may change.
pub fn is_editable_key(key: &str) -> (r: bool)
    ensures
        r == editable_key(key@),
{
    str_eq(key, "fiverr_gig_url") || str_eq(key, "normal_lead_limit") || str_eq(
        key,
        "follow_up_delay_days",
    ) || str_eq(key, "second_follow_up_enabled") || str_eq(key, "sender_name") || str_eq(
        key,
        "sender_business_name",
    ) || str_eq(key, "sender_postal_address") || str_eq(key, "opt_out_line_en") || str_eq(
        key,
        "opt_out_line_fr",
    ) || str_eq(key, "backup_retention_count")
}

/// The check of a numeric setting against its bounds.
pub open spec fn number_check(value: Seq<char>, minimum: i64, maximum: i64) -> Result<(), ErrorView> {
    match parsed_i64(value) {
        None => Err(ErrorView::InvalidLead("setting must be a number"@)),
        Some(n) => if !(minimum <= n <= maximum) {
            Err(
                ErrorView::InvalidLead(
                    "setting must be between "@ + decimal_seq(minimum as int) + " and "@
                        + decimal_seq(maximum as int),
                ),
            )
        } else {
            Ok(())
        },
    }
}

/// Checks that `value` is a whole number between `minimum` and `maximum`.
pub fn validate_number(value: &str, minimum: i64, maximum: i64) -> (r: Result<(), AppError>)
    ensures
        match r {
            Ok(()) => number_check(value@, minimum, maximum) == Ok::<(), ErrorView>(()),
            Err(e) => number_check(value@, minimum, maximum) == Err::<(), ErrorView>(e@),
        },
{
    let parsed = match parse_i64(value) {
        None => return Err(invalid("setting must be a number")),
        Some(n) => n,
    };
    if !(minimum <= parsed && parsed <= maximum) {
        let low = decimal(minimum);
        let high = decimal(maximum);
        let a = concat_str("setting must be between ", low.as_str());
        let b = concat_str(a.as_str(), " and ");
        let c = concat_str(b.as_str(), high.as_str());
        return Err(AppError::InvalidLead(c));
    }
    Ok(())
}

/// The check of a Fiverr Gig address, given what the address parser made
/// of it: an HTTPS address on `fiverr.com`.
pub open spec fn fiverr_url_from(gig: Option<WebUrlView>) -> Result<(), ErrorView> {
    match gig {
        None => Err(ErrorView::InvalidLead("Fiverr Gig URL is invalid"@)),
        Some(u) => if u.scheme != "https"@ || match u.host {
            Some(h) => !seq_ends_with(h, "fiverr.com"@),
            None => true,
        } {
            Err(ErrorView::InvalidLead("use an HTTPS fiverr.com Gig URL"@))
        } else {
            Ok(())
        },
    }
}

/// Checks a parsed Fiverr Gig address.
pub fn check_fiverr_url(gig: Option<WebUrl>) -> (r: Result<(), AppError>)
    ensures
        match r {
            Ok(()) => fiverr_url_from(url_view(gig)) == Ok::<(), ErrorView>(()),
            Err(e) => fiverr_url_from(url_view(gig)) == Err::<(), ErrorView>(e@),
        },
{
    let url = match gig {
        None => return Err(invalid("Fiverr Gig URL is invalid")),
        Some(u) => u,
    };
    let host_ok = match &url.host {
        Some(h) => ends_with(h.as_str(), "fiverr.com"),
        None => false,
    };
    if !str_eq(url.scheme.as_str(), "https") || !host_ok {
        return Err(invalid("use an HTTPS fiverr.com Gig URL"));
    }
    Ok(())
}

/// The checks on a new setting value, in the order they are made, and the
/// value that is stored.
pub open spec fn setting_check(key: Seq<char>, value: Seq<char>) -> Result<Seq<char>, ErrorView> {
    let v = trim_seq(value);
    if !editable_key(key) {
        Err(ErrorView::InvalidLead("unknown setting"@))
    } else if byte_len(v) > 2000 {
        Err(ErrorView::InvalidLead("setting is too long"@))
    } else if key == "fiverr_gig_url"@ {
        match fiverr_url_from(url_parse_result(v)) {
            Err(e) => Err(e),
            Ok(()) => Ok(v),
        }
    } else if key == "normal_lead_limit"@ {
        match number_check(v, 1, 10) {
            Err(e) => Err(e),
            Ok(()) => Ok(v),
        }
    } else if key == "follow_up_delay_days"@ || key == "backup_retention_count"@ {
        match number_check(v, 1, 30) {
            Err(e) => Err(e),
            Ok(()) => Ok(v),
        }
    } else if key == "second_follow_up_enabled"@ && !(v == "true"@ || v == "false"@) {
        Err(ErrorView::InvalidLead("invalid yes/no value"@))
    } else {
        Ok(v)
    }
}

/// Checks a new value for setting `key` and trims it.
pub fn check_setting(key: &str, value: &str) -> (r: Result<String, AppError>)
    ensures
        outcome(r) == setting_check(key@, value@),
{
    if !is_editable_key(key) {
        return Err(invalid("unknown setting"));
    }
    let v = trim(value);
    if byte_count(v.as_str()) > 2000 {
        return Err(invalid("setting is too long"));
    }
    if str_eq(key, "fiverr_gig_url") {
        check_fiverr_url(parse_url(v.as_str()))?;
    } else if str_eq(key, "normal_lead_limit") {
        validate_number(v.as_str(), 1, 10)?;
    } else if str_eq(key, "follow_up_delay_days") || str_eq(key, "backup_retention_count") {
        validate_number(v.as_str(), 1, 30)?;
    } else if str_eq(key, "second_follow_up_enabled") && !(str_eq(v.as_str(), "true") || str_eq(
        v.as_str(),
        "false",
    )) {
        return Err(invalid("invalid yes/no value"));
    }
    Ok(v)
}

/// Every setting of the desk may be edited: the Fiverr Gig address, the
/// lead limit, the follow-up delay and second follow-up, the sender's name,
/// business and postal address, both opt-out lines and the backup
/// retention. A free-text setting of at most 2,000 bytes is stored trimmed.
pub proof fn law_every_setting_is_editable(key: Seq<char>, value: Seq<char>)
    ensures
        editable_key("fiverr_gig_url"@),
        editable_key("normal_lead_limit"@),
        editable_key("follow_up_delay_days"@),
        editable_key("second_follow_up_enabled"@),
        editable_key("sender_name"@),
        editable_key("sender_business_name"@),
        editable_key("sender_postal_address"@),
        editable_key("opt_out_line_en"@),
        editable_key("opt_out_line_fr"@),
        editable_key("backup_retention_count"@),
        (key == "sender_name"@ || key == "sender_business_name"@ || key == "sender_postal_address"@
            || key == "opt_out_line_en"@ || key == "opt_out_line_fr"@) && byte_len(trim_seq(value)) <= 2000
            ==> setting_check(key, value) == Ok::<Seq<char>, ErrorView>(trim_seq(value)),
{
    reveal_strlit("fiverr_gig_url");
    reveal_strlit("normal_lead_limit");
    reveal_strlit("follow_up_delay_days");
    reveal_strlit("second_follow_up_enabled");
    reveal_strlit("sender_name");
    reveal_strlit("sender_business_name");
    reveal_strlit("sender_postal_address");
    reveal_strlit("opt_out_line_en");
    reveal_strlit("opt_out_line_fr");
    reveal_strlit("backup_retention_count");
    if key == "sender_name"@ || key == "sender_business_name"@ || key == "sender_postal_address"@
        || key == "opt_out_line_en"@ || key == "opt_out_line_fr"@ {
        assert(key != "fiverr_gig_url"@ && key != "normal_lead_limit"@ && key != "follow_up_delay_days"@
            && key != "backup_retention_count"@ && key != "second_follow_up_enabled"@) by {
            let specials = seq![
                "fiverr_gig_url"@,
                "normal_lead_limit"@,
                "follow_up_delay_days"@,
                "backup_retention_count"@,
                "second_follow_up_enabled"@,
            ];
            assert forall|i: int| 0 <= i < 5 implies key != #[trigger] specials[i] by {
                let x = specials[i];
                assert(key.len() != x.len() || key[0] != x[0] || key[2] != x[2]);
            }
            assert(specials[0] == "fiverr_gig_url"@);
            assert(specials[1] == "normal_lead_limit"@);
            assert(specials[2] == "follow_up_delay_days"@);
            assert(specials[3] == "backup_retention_count"@);
            assert(specials[4] == "second_follow_up_enabled"@);
        }
    }
}

} // verus!
