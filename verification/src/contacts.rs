//! Public business contacts of a lead.

use vstd::prelude::*;
use crate::error::{AppError, ErrorView, invalid, outcome};
use crate::leads::web_scheme;
use crate::text::{
    byte_count, byte_len, chars_of, contains_char, is_unicode_whitespace, is_white_space, opt_seq,
    str_eq, string_from_range, trim, trim_opt, trim_seq, trimmed_opt,
};
use crate::web::{WebUrl, WebUrlView, parse_url, url_parse_result, url_view};

verus! {

/// A contact found on a lead's public pages.
pub struct AddContactInput {
    pub lead_id: String,
    pub contact_type: String,
    pub value: String,
    pub recipient_role: Option<String>,
    pub source_url: String,
}

/// A stored contact.
pub struct ContactRecord {
    pub id: String,
    pub contact_type: String,
    pub value: String,
    pub recipient_role: Option<String>,
    pub source_url: String,
    pub caution_reason: Option<String>,
}

/// Index of the last occurrence of `c` in `s`.
pub open spec fn last_index_of(s: Seq<char>, c: char) -> Option<int>
    decreases s.len(),
{
    if s.len() == 0 {
        None
    } else if s.last() == c {
        Some(s.len() - 1)
    } else {
        last_index_of(s.drop_last(), c)
    }
}

/// The plausibility rule for an email address: at most 254 bytes, no white
/// space, and around its last `@` a local part of 1–64 bytes and a domain
/// with an inner dot.
pub open spec fn email_ok(v: Seq<char>) -> bool {
    if byte_len(v) > 254 || exists|i: int| 0 <= i < v.len() && is_unicode_whitespace(#[trigger] v[i]) {
        false
    } else {
        match last_index_of(v, '@') {
            None => false,
            Some(at) => {
                let local = v.subrange(0, at);
                let domain = v.subrange(at + 1, v.len() as int);
                &&& local.len() > 0
                &&& byte_len(local) <= 64
                &&& domain.contains('.')
                &&& domain[0] != '.'
                &&& domain.last() != '.'
            },
        }
    }
}

/// `last_index_of` finds the position of `c` after which `c` does not occur.
proof fn lemma_last_index_of(s: Seq<char>, c: char, k: int)
    ensures
        (0 <= k < s.len() && s[k] == c && forall|m: int| k < m < s.len() ==> s[m] != c) <==> last_index_of(
            s,
            c,
        ) == Some(k),
    decreases s.len(),
{
    if s.len() > 0 {
        lemma_last_index_of(s.drop_last(), c, k);
        assert forall|m: int| 0 <= m < s.len() - 1 implies s.drop_last()[m] == s[m] by {}
        if s.last() != c && 0 <= k < s.len() && s[k] == c && forall|m: int| k < m < s.len() ==> s[m] != c {
            assert(k != s.len() - 1);
        }
    }
}

/// An address is plausible exactly when it has no white space, at most 254
/// bytes, and an `@` after which no `@` follows, with 1–64 bytes of any
/// characters before it and after it a domain holding a dot that neither
/// starts nor ends it.
pub proof fn law_plausible_email(v: Seq<char>)
    ensures
        email_ok(v) <==> {
            &&& byte_len(v) <= 254
            &&& forall|m: int| 0 <= m < v.len() ==> !is_unicode_whitespace(#[trigger] v[m])
            &&& exists|k: int|
                #![trigger v[k]]
                0 < k < v.len() - 1 && v[k] == '@' && (forall|m: int| k < m < v.len() ==> v[m] != '@')
                    && byte_len(v.subrange(0, k)) <= 64 && (exists|m: int| k < m < v.len() && v[m] == '.')
                    && v[k + 1] != '.' && v[v.len() - 1] != '.'
        },
{
    let shape = exists|k: int|
        #![trigger v[k]]
        0 < k < v.len() - 1 && v[k] == '@' && (forall|m: int| k < m < v.len() ==> v[m] != '@')
            && byte_len(v.subrange(0, k)) <= 64 && (exists|m: int| k < m < v.len() && v[m] == '.')
            && v[k + 1] != '.' && v[v.len() - 1] != '.';
    match last_index_of(v, '@') {
        None => {
            if shape {
                let k = choose|k: int|
                    #![trigger v[k]]
                    0 < k < v.len() - 1 && v[k] == '@' && (forall|m: int| k < m < v.len() ==> v[m] != '@')
                        && byte_len(v.subrange(0, k)) <= 64 && (exists|m: int| k < m < v.len() && v[m] == '.')
                        && v[k + 1] != '.' && v[v.len() - 1] != '.';
                lemma_last_index_of(v, '@', k);
            }
        },
        Some(at) => {
            lemma_last_index_of(v, '@', at);
            let domain = v.subrange(at + 1, v.len() as int);
            if shape {
                let k = choose|k: int|
                    #![trigger v[k]]
                    0 < k < v.len() - 1 && v[k] == '@' && (forall|m: int| k < m < v.len() ==> v[m] != '@')
                        && byte_len(v.subrange(0, k)) <= 64 && (exists|m: int| k < m < v.len() && v[m] == '.')
                        && v[k + 1] != '.' && v[v.len() - 1] != '.';
                lemma_last_index_of(v, '@', k);
                assert(k == at);
                let m = choose|m: int| k < m < v.len() && v[m] == '.';
                assert(domain[m - at - 1] == '.');
                assert(domain.contains('.'));
            }
            if domain.contains('.') && v.subrange(0, at).len() > 0 && domain[0] != '.' && domain.last() != '.' {
                let m = choose|m: int| 0 <= m < domain.len() && domain[m] == '.';
                assert(v[at + 1 + m] == '.');
                assert(v[at] == '@');
            }
        },
    }
}

/// Whether `value` is plausible as a published email address.
pub fn valid_email(value: &str) -> (r: bool)
    ensures
        r == email_ok(value@),
{
    if byte_count(value) > 254 {
        return false;
    }
    let v = chars_of(value);
    let n = v.len();
    let mut i: usize = 0;
    while i < n
        invariant
            i <= n == v@.len(),
            v@ == value@,
            forall|k: int| 0 <= k < i ==> !is_unicode_whitespace(#[trigger] v@[k]),
        decreases n - i,
    {
        if is_white_space(v[i]) {
            return false;
        }
        i += 1;
    }
    let mut j: usize = n;
    assert(v@.subrange(0, n as int) =~= v@);
    while j > 0 && v[j - 1] != '@'
        invariant
            j <= n == v@.len(),
            last_index_of(v@.subrange(0, j as int), '@') == last_index_of(v@, '@'),
        decreases j,
    {
        assert(v@.subrange(0, j as int).drop_last() =~= v@.subrange(0, j - 1));
        j -= 1;
    }
    if j == 0 {
        assert(v@.subrange(0, 0) =~= Seq::<char>::empty());
        return false;
    }
    let at = j - 1;
    assert(v@.subrange(0, j as int).last() == '@');
    assert(v@.subrange(0, n as int) =~= v@);
    let local = string_from_range(&v, 0, at);
    let domain = string_from_range(&v, at + 1, n);
    let dv = chars_of(domain.as_str());
    if local.as_str().is_empty() || byte_count(local.as_str()) > 64 {
        return false;
    }
    if !contains_char(domain.as_str(), '.') {
        return false;
    }
    dv[0] != '.' && dv[dv.len() - 1] != '.'
}

/// A contact once checked, ready to be stored.
pub struct PreparedContact {
    pub contact_type: String,
    pub value: String,
    pub recipient_role: Option<String>,
    pub source_url: String,
    pub caution_reason: Option<String>,
}

/// A [`PreparedContact`] taken by its characters.
pub struct PreparedContactView {
    pub contact_type: Seq<char>,
    pub value: Seq<char>,
    pub recipient_role: Option<Seq<char>>,
    pub source_url: Seq<char>,
    pub caution_reason: Option<Seq<char>>,
}

impl View for PreparedContact {
    type V = PreparedContactView;

    open spec fn view(&self) -> PreparedContactView {
        PreparedContactView {
            contact_type: self.contact_type@,
            value: self.value@,
            recipient_role: opt_seq(self.recipient_role),
            source_url: self.source_url@,
            caution_reason: opt_seq(self.caution_reason),
        }
    }
}

/// Kinds of contact the desk records.
pub open spec fn known_contact_type(t: Seq<char>) -> bool {
    t == "role_email"@ || t == "named_email"@ || t == "contact_form"@ || t == "phone"@
}

/// Kinds of contact that are email addresses.
pub open spec fn email_contact_type(t: Seq<char>) -> bool {
    t == "role_email"@ || t == "named_email"@
}

/// The checks on a new contact, in the order they are made, given what the
/// address parser made of the trimmed source, and what is stored.
pub open spec fn contact_from(
    contact_type: Seq<char>,
    value: Seq<char>,
    recipient_role: Option<Seq<char>>,
    source: Option<WebUrlView>,
) -> Result<PreparedContactView, ErrorView> {
    let v = trim_seq(value);
    if !known_contact_type(contact_type) {
        Err(ErrorView::InvalidLead("unknown contact type"@))
    } else if v.len() == 0 || byte_len(v) > 500 {
        Err(ErrorView::InvalidLead("contact value is invalid"@))
    } else if email_contact_type(contact_type) && !email_ok(v) {
        Err(ErrorView::InvalidLead("email address is invalid"@))
    } else {
        match source {
            None => Err(ErrorView::InvalidLead("contact source URL is invalid"@)),
            Some(u) => if !web_scheme(u.scheme) {
                Err(ErrorView::InvalidLead("contact source must use HTTP or HTTPS"@))
            } else {
                Ok(
                    PreparedContactView {
                        contact_type,
                        value: v,
                        recipient_role: trimmed_opt(recipient_role),
                        source_url: u.serialization,
                        caution_reason: if contact_type == "named_email"@ {
                            Some(
                                "Named personal address: confirm that business outreach is appropriate."@,
                            )
                        } else {
                            None
                        },
                    },
                )
            },
        }
    }
}

/// The checks on a new contact, with the source parsed once trimmed.
pub open spec fn contact_check(
    contact_type: Seq<char>,
    value: Seq<char>,
    recipient_role: Option<Seq<char>>,
    source_url: Seq<char>,
) -> Result<PreparedContactView, ErrorView> {
    contact_from(contact_type, value, recipient_role, url_parse_result(trim_seq(source_url)))
}

/// Checks a new contact, given its parsed source address, and normalises
/// what will be stored.
pub fn prepare_contact_from_url(input: &AddContactInput, source: Option<WebUrl>) -> (r: Result<
    PreparedContact,
    AppError,
>)
    ensures
        outcome(r) == contact_from(
            input.contact_type@,
            input.value@,
            opt_seq(input.recipient_role),
            url_view(source),
        ),
{
    let kind = input.contact_type.as_str();
    if !(str_eq(kind, "role_email") || str_eq(kind, "named_email") || str_eq(kind, "contact_form")
        || str_eq(kind, "phone")) {
        return Err(invalid("unknown contact type"));
    }
    let value = trim(input.value.as_str());
    if value.as_str().is_empty() || byte_count(value.as_str()) > 500 {
        return Err(invalid("contact value is invalid"));
    }
    let email = str_eq(kind, "role_email") || str_eq(kind, "named_email");
    if email && !valid_email(value.as_str()) {
        return Err(invalid("email address is invalid"));
    }
    let url = match source {
        None => return Err(invalid("contact source URL is invalid")),
        Some(u) => u,
    };
    if !(str_eq(url.scheme.as_str(), "http") || str_eq(url.scheme.as_str(), "https")) {
        return Err(invalid("contact source must use HTTP or HTTPS"));
    }
    let caution = if str_eq(kind, "named_email") {
        Some("Named personal address: confirm that business outreach is appropriate.".to_owned())
    } else {
        None
    };
    Ok(
        PreparedContact {
            contact_type: kind.to_owned(),
            value,
            recipient_role: trim_opt(&input.recipient_role),
            source_url: url.serialization,
            caution_reason: caution,
        },
    )
}

/// Checks a new contact and normalises what will be stored.
pub fn prepare_contact(input: &AddContactInput) -> (r: Result<PreparedContact, AppError>)
    ensures
        outcome(r) == contact_check(
            input.contact_type@,
            input.value@,
            opt_seq(input.recipient_role),
            input.source_url@,
        ),
{
    let source = trim(input.source_url.as_str());
    prepare_contact_from_url(input, parse_url(source.as_str()))
}

} // verus!
