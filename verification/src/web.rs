//! Web addresses: parsing through the `url` crate and form encoding of
//! query values.

use vstd::prelude::*;
use vstd::utf8::encode_utf8;

verus! {

/// What the lead desk reads of a parsed web address.
pub struct WebUrl {
    /// The scheme, such as `https`.
    pub scheme: String,
    /// The host as text, when the address has one.
    pub host: Option<String>,
    /// The whole address as the parser serialises it.
    pub serialization: String,
    /// The serialisation once the fragment is removed.
    pub without_fragment: String,
}

/// A [`WebUrl`] with its parts taken as character sequences.
pub struct WebUrlView {
    pub scheme: Seq<char>,
    pub host: Option<Seq<char>>,
    pub serialization: Seq<char>,
    pub without_fragment: Seq<char>,
}

impl View for WebUrl {
    type V = WebUrlView;

    open spec fn view(&self) -> WebUrlView {
        WebUrlView {
            scheme: self.scheme@,
            host: match self.host {
                Some(h) => Some(h@),
                None => None,
            },
            serialization: self.serialization@,
            without_fragment: self.without_fragment@,
        }
    }
}

/// A parse result taken by its view.
pub open spec fn url_view(u: Option<WebUrl>) -> Option<WebUrlView> {
    match u {
        Some(u) => Some(u@),
        None => None,
    }
}

/// What `url::Url::parse` makes of `input`: `None` when it rejects it.
pub uninterp spec fn url_parse_result(input: Seq<char>) -> Option<WebUrlView>;

/// Parses `input` as an absolute web address.
///
/// Calls `url::Url::parse` and reads the scheme, `host_str`, the
/// serialisation, and the serialisation after `set_fragment(None)`.
/// The contract only names the result: the WHATWG parsing rules are not
/// restated here.
#[verifier::external_body]
pub(crate) fn parse_url(input: &str) -> (r: Option<WebUrl>)
    ensures
        url_view(r) == url_parse_result(input@),
{
    match url::Url::parse(input) {
        Ok(url) => {
            let mut bare = url.clone();
            bare.set_fragment(None);
            let host = match url.host_str() {
                Some(h) => Some(h.to_owned()),
                None => None,
            };
            Some(WebUrl { scheme: url.scheme().to_owned(), host, serialization: url.to_string(), without_fragment: bare.to_string() })
        },
        Err(_) => None,
    }
}

/// Bytes that `application/x-www-form-urlencoded` serialisation keeps as they are.
pub open spec fn form_unchanged(b: u8) -> bool {
    ||| b == 0x2a
    ||| b == 0x2d
    ||| b == 0x2e
    ||| 0x30 <= b <= 0x39
    ||| 0x41 <= b <= 0x5a
    ||| b == 0x5f
    ||| 0x61 <= b <= 0x7a
}

/// Upper-case hexadecimal digit for `d < 16`.
pub open spec fn hex_upper(d: int) -> char {
    if d < 10 {
        ((d + 48) as u32) as char
    } else {
        ((d + 55) as u32) as char
    }
}

/// Serialisation of one byte: kept, `+` for a space, else `%XX`.
pub open spec fn form_byte(b: u8) -> Seq<char> {
    if form_unchanged(b) {
        seq![(b as u32) as char]
    } else if b == 0x20 {
        seq!['+']
    } else {
        seq!['%', hex_upper((b / 16) as int), hex_upper((b % 16) as int)]
    }
}

/// `application/x-www-form-urlencoded` serialisation of a byte string.
pub open spec fn form_encode_bytes(bytes: Seq<u8>) -> Seq<char>
    decreases bytes.len(),
{
    if bytes.len() == 0 {
        Seq::empty()
    } else {
        form_byte(bytes[0]) + form_encode_bytes(bytes.drop_first())
    }
}

/// The form-encoded UTF-8 bytes of `s`, as a URL query value.
///
/// Calls `url::form_urlencoded::byte_serialize`, which keeps
/// `*-._`, ASCII letters and digits, writes a space as `+` and every other
/// byte as `%` and two upper-case hexadecimal digits.
#[verifier::external_body]
pub(crate) fn form_urlencode(s: &str) -> (r: String)
    ensures
        r@ == form_encode_bytes(encode_utf8(s@)),
{
    url::form_urlencoded::byte_serialize(s.as_bytes()).collect::<String>()
}

} // verus!
