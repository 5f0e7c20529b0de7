//! Character-level text utilities with exact specifications.

use vstd::prelude::*;
use vstd::std_specs::iter::IteratorSpec;
use vstd::utf8::encode_utf8;

verus! {

/// Number of bytes of the UTF-8 encoding of `s` (what `str::len` returns).
pub open spec fn byte_len(s: Seq<char>) -> nat {
    encode_utf8(s).len()
}

/// Number of bytes of the UTF-8 encoding of `s`.
pub fn byte_count(s: &str) -> (n: usize)
    ensures
        n == byte_len(s@),
{
    s.as_bytes().len()
}

/// The Unicode `White_Space` property, which `char::is_whitespace` reports.
pub open spec fn is_unicode_whitespace(c: char) -> bool {
    let v = c as u32;
    ||| 0x9 <= v <= 0xd
    ||| v == 0x20
    ||| v == 0x85
    ||| v == 0xa0
    ||| v == 0x1680
    ||| 0x2000 <= v <= 0x200a
    ||| v == 0x2028
    ||| v == 0x2029
    ||| v == 0x202f
    ||| v == 0x205f
    ||| v == 0x3000
}

/// Whether `c` is a white-space character in the sense of Unicode.
pub fn is_white_space(c: char) -> (r: bool)
    ensures
        r == is_unicode_whitespace(c),
{
    let v = c as u32;
    (0x9 <= v && v <= 0xd) || v == 0x20 || v == 0x85 || v == 0xa0 || v == 0x1680 || (0x2000 <= v
        && v <= 0x200a) || v == 0x2028 || v == 0x2029 || v == 0x202f || v == 0x205f || v == 0x3000
}

/// Appends one character to a string (`String::push`).
#[verifier::external_body]
fn push_char(s: &mut String, c: char)
    ensures
        final(s)@ == old(s)@.push(c),
{
    s.push(c);
}

/// The characters of `s`, in order.
pub fn chars_of(s: &str) -> (v: Vec<char>)
    ensures
        v@ == s@,
{
    let mut v: Vec<char> = Vec::new();
    for c in it: s.chars()
        invariant
            v@ == it.seq().take(it.index()),
    {
        v.push(c);
    }
    v
}


/// A fresh string holding exactly the characters `v[lo..hi]`.
pub fn string_from_range(v: &Vec<char>, lo: usize, hi: usize) -> (r: String)
    requires
        lo <= hi <= v@.len(),
    ensures
        r@ == v@.subrange(lo as int, hi as int),
{
    let mut r = String::new();
    let mut i = lo;
    while i < hi
        invariant
            lo <= i <= hi <= v@.len(),
            r@ == v@.subrange(lo as int, i as int),
        decreases hi - i,
    {
        push_char(&mut r, v[i]);
        assert(v@.subrange(lo as int, i + 1) =~= v@.subrange(lo as int, i as int).push(v@[i as int]));
        i += 1;
    }
    r
}

/// A fresh string holding the characters of `v`.
pub fn string_from_chars(v: &Vec<char>) -> (r: String)
    ensures
        r@ == v@,
{
    let r = string_from_range(v, 0, v.len());
    assert(v@.subrange(0, v@.len() as int) =~= v@);
    r
}

/// `s` followed by `t`.
pub fn concat_str(s: &str, t: &str) -> (r: String)
    ensures
        r@ == s@ + t@,
{
    let mut v = chars_of(s);
    let w = chars_of(t);
    let mut i: usize = 0;
    while i < w.len()
        invariant
            i <= w@.len(),
            w@ == t@,
            v@ == s@ + t@.take(i as int),
        decreases w@.len() - i,
    {
        v.push(w[i]);
        assert(t@.take(i + 1) =~= t@.take(i as int).push(t@[i as int]));
        i += 1;
    }
    assert(t@.take(w@.len() as int) =~= t@);
    string_from_chars(&v)
}

/// Whether two strings hold the same characters.
pub fn str_eq(a: &str, b: &str) -> (r: bool)
    ensures
        r == (a@ == b@),
{
    let x = chars_of(a);
    let y = chars_of(b);
    if x.len() != y.len() {
        return false;
    }
    let mut i: usize = 0;
    while i < x.len()
        invariant
            i <= x@.len(),
            x@.len() == y@.len(),
            x@ == a@,
            y@ == b@,
            forall|k: int| 0 <= k < i ==> x@[k] == y@[k],
        decreases x@.len() - i,
    {
        if x[i] != y[i] {
            return false;
        }
        i += 1;
    }
    assert(x@ =~= y@);
    true
}

/// Index of the first character at or after `i` that is not white space
/// (`s.len()` when there is none).
pub open spec fn kept_start_from(s: Seq<char>, i: int) -> int
    decreases s.len() - i,
{
    if i >= s.len() {
        s.len() as int
    } else if is_unicode_whitespace(s[i]) {
        kept_start_from(s, i + 1)
    } else {
        i
    }
}

/// End (exclusive) of `s[..j]` once trailing white space is dropped.
pub open spec fn kept_end_from(s: Seq<char>, j: int) -> int
    decreases j,
{
    if j <= 0 {
        0
    } else if is_unicode_whitespace(s[j - 1]) {
        kept_end_from(s, j - 1)
    } else {
        j
    }
}

/// `s` without leading and trailing white space (`str::trim`).
pub open spec fn trim_seq(s: Seq<char>) -> Seq<char> {
    let a = kept_start_from(s, 0);
    let b = kept_end_from(s, s.len() as int);
    if a < b {
        s.subrange(a, b)
    } else {
        Seq::empty()
    }
}

/// `s` without leading white space (`str::trim_start`).
pub open spec fn trim_start_seq(s: Seq<char>) -> Seq<char> {
    s.subrange(kept_start_from(s, 0), s.len() as int)
}

fn leading_space_end(v: &Vec<char>) -> (a: usize)
    ensures
        a <= v@.len(),
        a == kept_start_from(v@, 0),
{
    let n = v.len();
    let mut a: usize = 0;
    while a < n && is_white_space(v[a])
        invariant
            a <= n == v@.len(),
            kept_start_from(v@, a as int) == kept_start_from(v@, 0),
        decreases n - a,
    {
        a += 1;
    }
    a
}

fn trailing_space_start(v: &Vec<char>) -> (b: usize)
    ensures
        b <= v@.len(),
        b == kept_end_from(v@, v@.len() as int),
{
    let n = v.len();
    let mut b: usize = n;
    while b > 0 && is_white_space(v[b - 1])
        invariant
            b <= n == v@.len(),
            kept_end_from(v@, b as int) == kept_end_from(v@, n as int),
        decreases b,
    {
        b -= 1;
    }
    b
}

/// `s` without leading and trailing white space.
pub fn trim(s: &str) -> (r: String)
    ensures
        r@ == trim_seq(s@),
{
    let v = chars_of(s);
    let a = leading_space_end(&v);
    let b = trailing_space_start(&v);
    if a < b {
        string_from_range(&v, a, b)
    } else {
        String::new()
    }
}

/// `s` without leading white space.
pub fn trim_start(s: &str) -> (r: String)
    ensures
        r@ == trim_start_seq(s@),
{
    let v = chars_of(s);
    let a = leading_space_end(&v);
    string_from_range(&v, a, v.len())
}


/// ASCII lower-case of one character (`char::to_ascii_lowercase`).
pub open spec fn ascii_lower_char(c: char) -> char {
    if 'A' <= c <= 'Z' {
        ((c as u32) + 32) as char
    } else {
        c
    }
}

/// ASCII lower-case of a character sequence (`str::to_ascii_lowercase`).
pub open spec fn ascii_lower_seq(s: Seq<char>) -> Seq<char> {
    s.map_values(|c: char| ascii_lower_char(c))
}

/// `s` with its ASCII letters in lower case; other characters unchanged.
pub fn ascii_lowercase(s: &str) -> (r: String)
    ensures
        r@ == ascii_lower_seq(s@),
{
    let v = chars_of(s);
    let mut w: Vec<char> = Vec::new();
    let mut i: usize = 0;
    while i < v.len()
        invariant
            i <= v@.len(),
            v@ == s@,
            w@ == ascii_lower_seq(v@.take(i as int)),
        decreases v@.len() - i,
    {
        let c = v[i];
        let d = if 'A' <= c && c <= 'Z' {
            ((c as u8) + 32) as char
        } else {
            c
        };
        w.push(d);
        assert(ascii_lower_seq(v@.take(i + 1)) =~= ascii_lower_seq(v@.take(i as int)).push(d));
        i += 1;
    }
    assert(v@.take(v@.len() as int) =~= v@);
    string_from_chars(&w)
}

/// Whether `s` begins with `p`.
pub open spec fn seq_starts_with(s: Seq<char>, p: Seq<char>) -> bool {
    p.len() <= s.len() && s.subrange(0, p.len() as int) == p
}

/// Whether `s` ends with `p`.
pub open spec fn seq_ends_with(s: Seq<char>, p: Seq<char>) -> bool {
    p.len() <= s.len() && s.subrange(s.len() - p.len(), s.len() as int) == p
}

/// Whether `v[at..]` begins with `p`.
fn matches_at(v: &Vec<char>, at: usize, p: &Vec<char>) -> (r: bool)
    requires
        at <= v@.len(),
    ensures
        r == seq_starts_with(v@.subrange(at as int, v@.len() as int), p@),
{
    let ghost rest = v@.subrange(at as int, v@.len() as int);
    let vl = v.len();
    if p.len() > vl - at {
        return false;
    }
    let mut k: usize = 0;
    while k < p.len()
        invariant
            k <= p@.len(),
            vl == v@.len(),
            at + p@.len() <= v@.len(),
            rest == v@.subrange(at as int, v@.len() as int),
            forall|j: int| 0 <= j < k ==> v@[at + j] == p@[j],
        decreases p@.len() - k,
    {
        if v[at + k] != p[k] {
            assert(rest.subrange(0, p@.len() as int)[k as int] != p@[k as int]);
            return false;
        }
        k += 1;
    }
    assert(rest.subrange(0, p@.len() as int) =~= p@);
    true
}

/// Whether `s` begins with `p` (`str::starts_with`).
pub fn starts_with(s: &str, p: &str) -> (r: bool)
    ensures
        r == seq_starts_with(s@, p@),
{
    let v = chars_of(s);
    let w = chars_of(p);
    assert(v@.subrange(0, v@.len() as int) =~= v@);
    matches_at(&v, 0, &w)
}

/// Whether `s` ends with `p` (`str::ends_with`).
pub fn ends_with(s: &str, p: &str) -> (r: bool)
    ensures
        r == seq_ends_with(s@, p@),
{
    let v = chars_of(s);
    let w = chars_of(p);
    if w.len() > v.len() {
        return false;
    }
    let at = v.len() - w.len();
    let r = matches_at(&v, at, &w);
    assert(v@.subrange(at as int, v@.len() as int).subrange(0, w@.len() as int) =~= v@.subrange(
        at as int,
        v@.len() as int,
    ));
    r
}

/// `s` without the prefix `p` when it has it, else `s` (`strip_prefix(..).unwrap_or(s)`).
pub open spec fn strip_prefix_seq(s: Seq<char>, p: Seq<char>) -> Seq<char> {
    if seq_starts_with(s, p) {
        s.subrange(p.len() as int, s.len() as int)
    } else {
        s
    }
}

/// `s` without the prefix `p` when it has it, else a copy of `s`.
pub fn strip_prefix_or_keep(s: &str, p: &str) -> (r: String)
    ensures
        r@ == strip_prefix_seq(s@, p@),
{
    let v = chars_of(s);
    let w = chars_of(p);
    if starts_with(s, p) {
        string_from_range(&v, w.len(), v.len())
    } else {
        string_from_chars(&v)
    }
}

/// End (exclusive) of `s[..j]` once trailing copies of `c` are dropped.
pub open spec fn end_without_from(s: Seq<char>, c: char, j: int) -> int
    decreases j,
{
    if j <= 0 {
        0
    } else if s[j - 1] == c {
        end_without_from(s, c, j - 1)
    } else {
        j
    }
}

/// `s` without trailing copies of `c` (`str::trim_end_matches(c)`).
pub open spec fn trim_end_char_seq(s: Seq<char>, c: char) -> Seq<char> {
    s.subrange(0, end_without_from(s, c, s.len() as int))
}

/// `s` without trailing copies of `c`.
pub fn trim_end_char(s: &str, c: char) -> (r: String)
    ensures
        r@ == trim_end_char_seq(s@, c),
{
    let v = chars_of(s);
    let n = v.len();
    let mut b: usize = n;
    while b > 0 && v[b - 1] == c
        invariant
            b <= n == v@.len(),
            v@ == s@,
            end_without_from(v@, c, b as int) == end_without_from(v@, c, n as int),
        decreases b,
    {
        b -= 1;
    }
    string_from_range(&v, 0, b)
}

/// Whether `c` occurs in `s`.
pub fn contains_char(s: &str, c: char) -> (r: bool)
    ensures
        r == s@.contains(c),
{
    let v = chars_of(s);
    let mut i: usize = 0;
    while i < v.len()
        invariant
            i <= v@.len(),
            v@ == s@,
            forall|k: int| 0 <= k < i ==> v@[k] != c,
        decreases v@.len() - i,
    {
        if v[i] == c {
            assert(v@[i as int] == c);
            return true;
        }
        i += 1;
    }
    false
}

/// Every non-overlapping occurrence of `p` in `s`, scanning from the left,
/// replaced by `w` (`str::replace` with a non-empty pattern).
pub open spec fn replace_seq(s: Seq<char>, p: Seq<char>, w: Seq<char>) -> Seq<char>
    decreases s.len(),
{
    if s.len() == 0 {
        Seq::empty()
    } else if p.len() > 0 && seq_starts_with(s, p) {
        w + replace_seq(s.subrange(p.len() as int, s.len() as int), p, w)
    } else {
        seq![s[0]] + replace_seq(s.drop_first(), p, w)
    }
}

/// `s` with every occurrence of `p` replaced by `w`.
pub fn replace_all(s: &str, p: &str, w: &str) -> (r: String)
    requires
        p@.len() > 0,
    ensures
        r@ == replace_seq(s@, p@, w@),
{
    let v = chars_of(s);
    let pv = chars_of(p);
    let wv = chars_of(w);
    let n = v.len();
    let mut out: Vec<char> = Vec::new();
    let mut i: usize = 0;
    assert(v@.subrange(0, n as int) =~= s@);
    while i < n
        invariant
            i <= n == v@.len(),
            v@ == s@,
            pv@ == p@,
            wv@ == w@,
            p@.len() > 0,
            replace_seq(s@, p@, w@) == out@ + replace_seq(v@.subrange(i as int, n as int), p@, w@),
        decreases n - i,
    {
        let ghost rest = v@.subrange(i as int, n as int);
        if matches_at(&v, i, &pv) {
            let ghost before = out@;
            let mut k: usize = 0;
            while k < wv.len()
                invariant
                    k <= wv@.len(),
                    out@ == before + wv@.take(k as int),
                decreases wv@.len() - k,
            {
                out.push(wv[k]);
                assert(wv@.take(k + 1) =~= wv@.take(k as int).push(wv@[k as int]));
                k += 1;
            }
            assert(wv@.take(wv@.len() as int) =~= wv@);
            assert(rest.subrange(p@.len() as int, rest.len() as int) =~= v@.subrange(
                i + p@.len(),
                n as int,
            ));
            i = i + pv.len();
        } else {
            out.push(v[i]);
            assert(rest.drop_first() =~= v@.subrange(i + 1, n as int));
            i += 1;
        }
    }
    assert(v@.subrange(n as int, n as int) =~= Seq::<char>::empty());
    string_from_chars(&out)
}


/// The ASCII digit for `d < 10`.
pub open spec fn digit_char(d: nat) -> char {
    ((d + 48) as u32) as char
}

/// Decimal digits of `n`, most significant first, without leading zeros.
pub open spec fn digits_seq(n: nat) -> Seq<char>
    decreases n,
{
    if n < 10 {
        seq![digit_char(n)]
    } else {
        digits_seq(n / 10).push(digit_char(n % 10))
    }
}

/// Decimal rendering of an integer, as `{}` formats it.
pub open spec fn decimal_seq(n: int) -> Seq<char> {
    if n < 0 {
        seq!['-'] + digits_seq((-n) as nat)
    } else {
        digits_seq(n as nat)
    }
}

/// Decimal rendering with an explicit sign, as `{:+}` formats it.
pub open spec fn signed_decimal_seq(n: int) -> Seq<char> {
    if n < 0 {
        seq!['-'] + digits_seq((-n) as nat)
    } else {
        seq!['+'] + digits_seq(n as nat)
    }
}

fn push_digits(out: &mut String, n: u128)
    ensures
        final(out)@ == old(out)@ + digits_seq(n as nat),
    decreases n,
{
    if n >= 10 {
        push_digits(out, n / 10);
    }
    let d = (n % 10) as u8;
    push_char(out, (d + 48) as char);
    assert(((d + 48) as char) == digit_char((n % 10) as nat));
    if n >= 10 {
        assert(digits_seq(n as nat) == digits_seq((n / 10) as nat).push(digit_char((n % 10) as nat)));
    }
}

fn magnitude(n: i128) -> (m: u128)
    ensures
        m as int == if n < 0 { -n } else { n as int },
{
    if n < 0 {
        if n == i128::MIN {
            (i128::MAX as u128) + 1
        } else {
            (-n) as u128
        }
    } else {
        n as u128
    }
}

/// `n` in decimal.
pub fn decimal(n: i64) -> (r: String)
    ensures
        r@ == decimal_seq(n as int),
{
    let mut r = String::new();
    if n < 0 {
        push_char(&mut r, '-');
    }
    push_digits(&mut r, magnitude(n as i128));
    r
}

/// `n` in decimal with its sign always written.
pub fn signed_decimal(n: i128) -> (r: String)
    ensures
        r@ == signed_decimal_seq(n as int),
{
    let mut r = String::new();
    if n < 0 {
        push_char(&mut r, '-');
    } else {
        push_char(&mut r, '+');
    }
    push_digits(&mut r, magnitude(n));
    r
}


/// An optional string taken by its characters.
pub open spec fn opt_seq(o: Option<String>) -> Option<Seq<char>> {
    match o {
        Some(s) => Some(s@),
        None => None,
    }
}

/// The trimmed text, or nothing when it is absent or blank
/// (`as_deref().map(str::trim).filter(|v| !v.is_empty())`).
pub open spec fn trimmed_nonblank(o: Option<Seq<char>>) -> Option<Seq<char>> {
    match o {
        Some(s) => if trim_seq(s).len() > 0 {
            Some(trim_seq(s))
        } else {
            None
        },
        None => None,
    }
}

/// The trimmed text when present (`as_deref().map(str::trim)`).
pub open spec fn trimmed_opt(o: Option<Seq<char>>) -> Option<Seq<char>> {
    match o {
        Some(s) => Some(trim_seq(s)),
        None => None,
    }
}

/// The trimmed text, or nothing when it is absent or blank.
pub fn trim_nonblank(o: &Option<String>) -> (r: Option<String>)
    ensures
        opt_seq(r) == trimmed_nonblank(opt_seq(*o)),
{
    match o {
        Some(s) => {
            let t = trim(s.as_str());
            if t.as_str().is_empty() {
                None
            } else {
                Some(t)
            }
        },
        None => None,
    }
}

/// The trimmed text when present.
pub fn trim_opt(o: &Option<String>) -> (r: Option<String>)
    ensures
        opt_seq(r) == trimmed_opt(opt_seq(*o)),
{
    match o {
        Some(s) => Some(trim(s.as_str())),
        None => None,
    }
}


/// An ASCII decimal digit.
pub open spec fn is_ascii_digit(c: char) -> bool {
    '0' <= c <= '9'
}

/// The number written by the decimal digits `s`.
pub open spec fn digits_value(s: Seq<char>) -> int
    decreases s.len(),
{
    if s.len() == 0 {
        0
    } else {
        digits_value(s.drop_last()) * 10 + ((s.last() as u32) - 48)
    }
}

/// A non-empty run of ASCII digits.
pub open spec fn all_digits(s: Seq<char>) -> bool {
    s.len() > 0 && forall|i: int| 0 <= i < s.len() ==> is_ascii_digit(#[trigger] s[i])
}

/// What `str::parse::<i64>` gives: an optional sign, then digits, in range.
pub open spec fn parsed_i64(s: Seq<char>) -> Option<i64> {
    let negative = s.len() > 0 && s[0] == '-';
    let body = if s.len() > 0 && (s[0] == '-' || s[0] == '+') {
        s.drop_first()
    } else {
        s
    };
    let v = if negative {
        -digits_value(body)
    } else {
        digits_value(body)
    };
    if all_digits(body) && i64::MIN <= v <= i64::MAX {
        Some(v as i64)
    } else {
        None
    }
}

/// What `str::parse::<usize>` gives: an optional `+`, then digits, in range.
pub open spec fn parsed_usize(s: Seq<char>) -> Option<usize> {
    let body = if s.len() > 0 && s[0] == '+' {
        s.drop_first()
    } else {
        s
    };
    if all_digits(body) && digits_value(body) <= usize::MAX {
        Some(digits_value(body) as usize)
    } else {
        None
    }
}

/// Cap above every value an `i64` or a `usize` can hold.
pub open spec fn digits_cap() -> int {
    0x2_0000_0000_0000_0000
}

/// The value of the digits `v[lo..]`, saturated at [`digits_cap`], when
/// they are all digits and there is at least one.
fn read_digits(v: &Vec<char>, lo: usize) -> (r: Option<u128>)
    requires
        lo <= v@.len(),
    ensures
        ({
            let body = v@.subrange(lo as int, v@.len() as int);
            match r {
                Some(x) => all_digits(body) && x as int == if digits_value(body) < digits_cap() {
                    digits_value(body)
                } else {
                    digits_cap()
                },
                None => !all_digits(body),
            }
        }),
{
    let ghost body = v@.subrange(lo as int, v@.len() as int);
    if lo == v.len() {
        return None;
    }
    let cap: u128 = 0x2_0000_0000_0000_0000;
    let mut acc: u128 = 0;
    let mut i: usize = lo;
    while i < v.len()
        invariant
            lo <= i <= v@.len(),
            body == v@.subrange(lo as int, v@.len() as int),
            forall|k: int| lo <= k < i ==> is_ascii_digit(#[trigger] v@[k]),
            acc as int == if digits_value(v@.subrange(lo as int, i as int)) < digits_cap() {
                digits_value(v@.subrange(lo as int, i as int))
            } else {
                digits_cap()
            },
            digits_value(v@.subrange(lo as int, i as int)) >= 0,
            cap == digits_cap(),
        decreases v@.len() - i,
    {
        let c = v[i];
        if !('0' <= c && c <= '9') {
            assert(!is_ascii_digit(body[i - lo]));
            return None;
        }
        let d = ((c as u32) - 48) as u128;
        assert(v@.subrange(lo as int, i + 1).drop_last() =~= v@.subrange(lo as int, i as int));
        let next = acc * 10 + d;
        acc = if next < cap {
            next
        } else {
            cap
        };
        i += 1;
    }
    assert(v@.subrange(lo as int, i as int) =~= body);
    assert forall|k: int| 0 <= k < body.len() implies is_ascii_digit(#[trigger] body[k]) by {
        assert(body[k] == v@[lo + k]);
    }
    Some(acc)
}

/// `s` read as a decimal `i64`, as `str::parse::<i64>` reads it.
pub fn parse_i64(s: &str) -> (r: Option<i64>)
    ensures
        r == parsed_i64(s@),
{
    let v = chars_of(s);
    let signed = v.len() > 0 && (v[0] == '-' || v[0] == '+');
    let negative = v.len() > 0 && v[0] == '-';
    let lo: usize = if signed {
        1
    } else {
        0
    };
    let ghost body = if signed {
        s@.drop_first()
    } else {
        s@
    };
    assert(v@.subrange(lo as int, v@.len() as int) =~= body);
    match read_digits(&v, lo) {
        None => None,
        Some(x) => {
            if negative {
                if x <= 0x8000_0000_0000_0000 {
                    Some((-(x as i128)) as i64)
                } else {
                    None
                }
            } else {
                if x <= 0x7fff_ffff_ffff_ffff {
                    Some(x as i64)
                } else {
                    None
                }
            }
        },
    }
}

/// `s` read as a decimal `usize`, as `str::parse::<usize>` reads it.
pub fn parse_usize(s: &str) -> (r: Option<usize>)
    ensures
        r == parsed_usize(s@),
{
    let v = chars_of(s);
    let plus = v.len() > 0 && v[0] == '+';
    let lo: usize = if plus {
        1
    } else {
        0
    };
    let ghost body = if plus {
        s@.drop_first()
    } else {
        s@
    };
    assert(v@.subrange(lo as int, v@.len() as int) =~= body);
    match read_digits(&v, lo) {
        None => None,
        Some(x) => {
            if x <= usize::MAX as u128 {
                Some(x as usize)
            } else {
                None
            }
        },
    }
}


/// `n` kept within `lo..=hi` (`i64::clamp`).
pub fn clamp_i64(n: i64, lo: i64, hi: i64) -> (r: i64)
    requires
        lo <= hi,
    ensures
        r == if n < lo { lo } else if n > hi { hi } else { n },
{
    if n < lo {
        lo
    } else if n > hi {
        hi
    } else {
        n
    }
}


/// Strict lexicographic order of character sequences by code point, the
/// order of SQLite's binary collation on UTF-8 text.
pub open spec fn seq_less(a: Seq<char>, b: Seq<char>) -> bool
    decreases a.len(),
{
    if a.len() == 0 {
        b.len() > 0
    } else if b.len() == 0 {
        false
    } else if a[0] != b[0] {
        a[0] < b[0]
    } else {
        seq_less(a.drop_first(), b.drop_first())
    }
}

/// The order is irreflexive.
pub proof fn lemma_seq_less_irreflexive(a: Seq<char>)
    ensures
        !seq_less(a, a),
    decreases a.len(),
{
    if a.len() > 0 {
        lemma_seq_less_irreflexive(a.drop_first());
    }
}

/// The order is transitive.
pub proof fn lemma_seq_less_transitive(a: Seq<char>, b: Seq<char>, c: Seq<char>)
    requires
        seq_less(a, b),
        seq_less(b, c),
    ensures
        seq_less(a, c),
    decreases a.len(),
{
    if a.len() > 0 && b.len() > 0 && c.len() > 0 && a[0] == b[0] && b[0] == c[0] {
        lemma_seq_less_transitive(a.drop_first(), b.drop_first(), c.drop_first());
    }
}

/// Of two different sequences, one is less than the other.
pub proof fn lemma_seq_less_total(a: Seq<char>, b: Seq<char>)
    requires
        a != b,
    ensures
        seq_less(a, b) || seq_less(b, a),
    decreases a.len(),
{
    if a.len() == 0 && b.len() == 0 {
        assert(a =~= b);
    }
    if a.len() > 0 && b.len() > 0 && a[0] == b[0] {
        if a.drop_first() == b.drop_first() {
            assert(a =~= seq![a[0]] + a.drop_first());
            assert(b =~= seq![b[0]] + b.drop_first());
            assert(false);
        } else {
            lemma_seq_less_total(a.drop_first(), b.drop_first());
        }
    }
}

/// Whether `a` comes strictly before `b`.
pub fn text_less(a: &str, b: &str) -> (r: bool)
    ensures
        r == seq_less(a@, b@),
{
    let x = chars_of(a);
    let y = chars_of(b);
    let mut i: usize = 0;
    assert(a@.skip(0) =~= a@);
    assert(b@.skip(0) =~= b@);
    while i < x.len() && i < y.len() && x[i] == y[i]
        invariant
            i <= x@.len(),
            i <= y@.len(),
            x@ == a@,
            y@ == b@,
            seq_less(a@, b@) == seq_less(a@.skip(i as int), b@.skip(i as int)),
        decreases x@.len() - i,
    {
        assert(a@.skip(i as int).drop_first() =~= a@.skip(i + 1));
        assert(b@.skip(i as int).drop_first() =~= b@.skip(i + 1));
        i += 1;
    }
    if i == x.len() {
        i < y.len()
    } else if i == y.len() {
        false
    } else {
        x[i] < y[i]
    }
}

} // verus!
