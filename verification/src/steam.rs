//! Steam identifier formats: validation of SteamID64 text, conversion to and
//! from 32-bit account ids, and parsing of the SteamID3 and classic Steam2
//! reference formats.

use vstd::prelude::*;

use crate::digits::{
    all_dec_digits, dec_digits_ok, dec_str, dec_val, is_dec_digit, lemma_dec_str_val,
    lemma_dec_val_upper, lemma_pow10_17, parse_u64, strip_plus, u64_to_dec_string,
};

verus! {

/// Failures of identifier handling.
#[derive(Debug, Clone)]
pub enum SteamError {
    InvalidSteamId64,
    InvalidCommunityUrl,
    MissingSteamWebApiKey,
    Other(String),
}

impl SteamError {
    /// Human-readable description of the failure.
    pub fn message(&self) -> (r: String)
        ensures
            self matches SteamError::Other(m) ==> r@ == m@,
    {
        match self {
            SteamError::InvalidSteamId64 => "invalid SteamID64".to_owned(),
            SteamError::InvalidCommunityUrl => "invalid Steam community URL".to_owned(),
            SteamError::MissingSteamWebApiKey => {
                "STEAM_WEB_API_KEY is required to resolve vanity URLs".to_owned()
            },
            SteamError::Other(m) => m.clone(),
        }
    }
}

/// The smallest individual-account SteamID64; account ids are offsets from it.
pub const STEAMID64_MIN: u64 = 76561197960265728;

/// A SteamID64 in text form: exactly seventeen decimal digits.
pub open spec fn is_steamid64_spec(s: Seq<char>) -> bool {
    s.len() == 17 && all_dec_digits(s)
}

/// A seventeen-digit string always denotes a value that fits in `u64`.
proof fn lemma_steamid64_fits(s: Seq<char>)
    requires
        is_steamid64_spec(s),
    ensures
        dec_val(s) < 100000000000000000,
{
    lemma_dec_val_upper(s);
    lemma_pow10_17();
}

/// Whether the string consists of exactly seventeen decimal digits.
fn is_steamid64(s: &str) -> (r: bool)
    ensures
        r == is_steamid64_spec(s@),
{
    let n = s.unicode_len();
    if n != 17 {
        return false;
    }
    let mut i: usize = 0;
    while i < n
        invariant
            0 <= i <= n,
            n == s@.len(),
            n == 17,
            forall|j: int| 0 <= j < i ==> is_dec_digit(#[trigger] s@[j]),
        decreases n - i,
    {
        let c = s.get_char(i);
        let is_digit = match c {
            '0' | '1' | '2' | '3' | '4' | '5' | '6' | '7' | '8' | '9' => true,
            _ => false,
        };
        if !is_digit {
            proof {
                assert(!is_dec_digit(s@[i as int]));
            }
            return false;
        }
        i += 1;
    }
    true
}

/// Accept a string exactly when it is seventeen decimal digits denoting a
/// value at or above the SteamID64 offset.
pub fn validate_steamid64(id: &str) -> (r: Result<(), SteamError>)
    ensures
        r is Ok <==> is_steamid64_spec(id@) && dec_val(id@) >= STEAMID64_MIN,
        r matches Err(e) ==> e is InvalidSteamId64,
{
    if !is_steamid64(id) {
        return Err(SteamError::InvalidSteamId64);
    }
    proof {
        lemma_steamid64_fits(id@);
        assert(id@[0] != '+');
        assert(strip_plus(id@) == id@);
    }
    let n = match parse_u64(id) {
        Some(n) => n,
        None => {
            return Err(SteamError::InvalidSteamId64);
        },
    };
    if n < STEAMID64_MIN {
        return Err(SteamError::InvalidSteamId64);
    }
    Ok(())
}

/// Offset of a valid SteamID64 from the base, truncated to 32 bits exactly as
/// the store's account-id column holds it.
pub open spec fn account_id_of(s: Seq<char>) -> nat {
    (dec_val(s) - STEAMID64_MIN) as nat % 0x100000000
}

/// Convert SteamID64 text to the 32-bit account id it denotes.
pub fn steamid64_to_account_id(id: &str) -> (r: Result<u32, SteamError>)
    ensures
        r is Ok <==> is_steamid64_spec(id@) && dec_val(id@) >= STEAMID64_MIN,
        r matches Ok(v) ==> v as nat == account_id_of(id@),
        r matches Err(e) ==> e is InvalidSteamId64,
{
    validate_steamid64(id)?;
    proof {
        lemma_steamid64_fits(id@);
        assert(id@[0] != '+');
        assert(strip_plus(id@) == id@);
    }
    let n = match parse_u64(id) {
        Some(n) => n,
        None => {
            return Err(SteamError::InvalidSteamId64);
        },
    };
    let acc = n - STEAMID64_MIN;
    proof {
        assert(acc as u32 as u64 == acc % 0x100000000) by (bit_vector);
    }
    Ok(#[verifier::truncate] (acc as u32))
}

/// Render a 32-bit account id as SteamID64 text.
pub fn account_id_to_steamid64(account_id: u32) -> (r: String)
    ensures
        r@ == dec_str((STEAMID64_MIN + account_id) as nat),
{
    u64_to_dec_string(STEAMID64_MIN + account_id as u64)
}

/// Round trip: the text rendered for any account id is a valid SteamID64,
/// and converting it back yields the same account id.
pub proof fn lemma_account_id_round_trip(account_id: u32)
    ensures
        is_steamid64_spec(dec_str((STEAMID64_MIN + account_id) as nat)),
        dec_val(dec_str((STEAMID64_MIN + account_id) as nat)) >= STEAMID64_MIN,
        account_id_of(dec_str((STEAMID64_MIN + account_id) as nat)) == account_id,
{
    let n = (STEAMID64_MIN + account_id) as nat;
    lemma_dec_str_val(n);
    lemma_pow10_17();
    crate::digits::lemma_dec_str_len(n, 17);
}

/// First position at or after `i` whose character fails `p`, or the length.
pub open spec fn scan_while(s: Seq<char>, i: int, p: spec_fn(char) -> bool) -> int
    decreases s.len() - i,
{
    if i < 0 || i >= s.len() || !p(s[i]) {
        i
    } else {
        scan_while(s, i + 1, p)
    }
}

pub proof fn lemma_scan_while(s: Seq<char>, i: int, p: spec_fn(char) -> bool)
    requires
        0 <= i <= s.len(),
    ensures
        i <= scan_while(s, i, p) <= s.len(),
        forall|j: int| i <= j < scan_while(s, i, p) ==> p(#[trigger] s[j]),
        scan_while(s, i, p) < s.len() ==> !p(s[scan_while(s, i, p)]),
    decreases s.len() - i,
{
    if i < s.len() && p(s[i]) {
        lemma_scan_while(s, i + 1, p);
    }
}

/// First position at or before `i` such that every character from it up to
/// `i` satisfies `p` maximally: scanning backward from `i`.
pub open spec fn scan_back_while(s: Seq<char>, i: int, p: spec_fn(char) -> bool) -> int
    decreases i,
{
    if i <= 0 || i > s.len() || !p(s[i - 1]) {
        i
    } else {
        scan_back_while(s, i - 1, p)
    }
}

pub proof fn lemma_scan_back_while(s: Seq<char>, i: int, p: spec_fn(char) -> bool)
    requires
        0 <= i <= s.len(),
    ensures
        0 <= scan_back_while(s, i, p) <= i,
        forall|j: int| scan_back_while(s, i, p) <= j < i ==> p(#[trigger] s[j]),
        scan_back_while(s, i, p) > 0 ==> !p(s[scan_back_while(s, i, p) - 1]),
    decreases i,
{
    if i > 0 && p(s[i - 1]) {
        lemma_scan_back_while(s, i - 1, p);
    }
}

/// ASCII whitespace, as it appears at the edges of command-line input.
pub open spec fn is_space(c: char) -> bool {
    c == ' ' || c == '\t' || c == '\n' || c == '\r' || c == '\u{b}' || c == '\u{c}'
}

pub open spec fn is_space_fn() -> spec_fn(char) -> bool {
    |c: char| is_space(c)
}

pub open spec fn is_digit_fn() -> spec_fn(char) -> bool {
    |c: char| is_dec_digit(c)
}

/// The input with ASCII whitespace removed from both ends.
pub open spec fn trim_spec(s: Seq<char>) -> Seq<char> {
    let a = scan_while(s, 0, is_space_fn());
    let b = scan_back_while(s, s.len() as int, is_space_fn());
    if a < b {
        s.subrange(a, b)
    } else {
        Seq::empty()
    }
}

fn is_space_char(c: char) -> (r: bool)
    ensures
        r == is_space(c),
{
    match c {
        ' ' | '\t' | '\n' | '\r' | '\u{b}' | '\u{c}' => true,
        _ => false,
    }
}

/// Remove ASCII whitespace from both ends of the input.
#[verifier::loop_isolation(false)]
pub fn trim_str(s: &str) -> (r: String)
    ensures
        r@ == trim_spec(s@),
{
    let ghost p = is_space_fn();
    let n = s.unicode_len();
    let mut a: usize = 0;
    while a < n && is_space_char(s.get_char(a))
        invariant
            0 <= a <= n,
            scan_while(s@, 0, p) == scan_while(s@, a as int, p),
        decreases n - a,
    {
        a += 1;
    }
    proof {
        assert(scan_while(s@, a as int, p) == a as int);
    }
    let mut b: usize = n;
    while b > a && is_space_char(s.get_char(b - 1))
        invariant
            a <= b <= n,
            scan_back_while(s@, n as int, p) == scan_back_while(s@, b as int, p),
        decreases b,
    {
        b -= 1;
    }
    if a >= b {
        proof {
            lemma_scan_back_while(s@, b as int, p);
        }
        return String::new();
    }
    proof {
        assert(!is_space(s@[b - 1]));
        assert(scan_back_while(s@, b as int, p) == b as int);
    }
    let out = s.substring_char(a, b);
    out.to_owned()
}

/// An ASCII letter.
pub open spec fn is_ascii_alpha(c: char) -> bool {
    (97 <= c as u32 && c as u32 <= 122) || (65 <= c as u32 && c as u32 <= 90)
}

fn is_ascii_alpha_char(c: char) -> (r: bool)
    ensures
        r == is_ascii_alpha(c),
{
    let u = c as u32;
    (97 <= u && u <= 122) || (65 <= u && u <= 90)
}

/// Code point with ASCII uppercase letters folded to lowercase.
pub open spec fn lower_code(c: char) -> u32 {
    if 65 <= c as u32 && c as u32 <= 90 {
        (c as u32 + 32) as u32
    } else {
        c as u32
    }
}

fn lower_code_char(c: char) -> (r: u32)
    ensures
        r == lower_code(c),
{
    let u = c as u32;
    if 65 <= u && u <= 90 {
        u + 32
    } else {
        u
    }
}

/// End of the run of decimal digits starting at `i`.
pub open spec fn digit_run_end(s: Seq<char>, i: int) -> int {
    scan_while(s, i, is_digit_fn())
}

/// First position at or after `from` that does not hold a decimal digit.
#[verifier::loop_isolation(false)]
fn scan_digits(s: &str, from: usize, n: usize) -> (r: usize)
    requires
        from <= n,
        n == s@.len(),
    ensures
        r == digit_run_end(s@, from as int),
        from <= r <= n,
        forall|j: int| from <= j < r ==> is_dec_digit(#[trigger] s@[j]),
        r < n ==> !is_dec_digit(s@[r as int]),
{
    let ghost p = is_digit_fn();
    let mut j: usize = from;
    while j < n
        invariant
            from <= j <= n,
            n == s@.len(),
            scan_while(s@, from as int, p) == scan_while(s@, j as int, p),
        decreases n - j,
    {
        let c = s.get_char(j);
        let is_digit = match c {
            '0' | '1' | '2' | '3' | '4' | '5' | '6' | '7' | '8' | '9' => true,
            _ => false,
        };
        if !is_digit {
            proof {
                assert(!is_dec_digit(s@[j as int]));
                assert(scan_while(s@, j as int, p) == j as int);
                lemma_scan_while(s@, from as int, p);
            }
            return j;
        }
        proof {
            assert(is_dec_digit(s@[j as int]));
        }
        j += 1;
    }
    proof {
        assert(scan_while(s@, j as int, p) == j as int);
        lemma_scan_while(s@, from as int, p);
    }
    n
}

/// SteamID3 form: a bracketed letter tag and two digit runs, the second of
/// which carries the account id.
pub open spec fn id3_match(s: Seq<char>) -> bool {
    let m = digit_run_end(s, 3);
    let e = digit_run_end(s, m + 1);
    &&& s.len() >= 7
    &&& s[0] == '['
    &&& is_ascii_alpha(s[1])
    &&& s[2] == ':'
    &&& m > 3
    &&& m < s.len()
    &&& s[m] == ':'
    &&& e > m + 1
    &&& e == s.len() - 1
    &&& s[e] == ']'
}

/// The account id a SteamID3 string denotes.
pub open spec fn id3_value(s: Seq<char>) -> nat {
    dec_val(s.subrange(digit_run_end(s, 3) + 1, s.len() - 1))
}

/// Classic Steam2 form: a case-insensitive `STEAM_` tag and three digit runs.
pub open spec fn steam2_match(s: Seq<char>) -> bool {
    let x = digit_run_end(s, 6);
    let y = digit_run_end(s, x + 1);
    let z = digit_run_end(s, y + 1);
    &&& s.len() >= 6
    &&& lower_code(s[0]) == 's' as u32
    &&& lower_code(s[1]) == 't' as u32
    &&& lower_code(s[2]) == 'e' as u32
    &&& lower_code(s[3]) == 'a' as u32
    &&& lower_code(s[4]) == 'm' as u32
    &&& s[5] == '_'
    &&& x > 6
    &&& x < s.len()
    &&& s[x] == ':'
    &&& y > x + 1
    &&& y < s.len()
    &&& s[y] == ':'
    &&& z > y + 1
    &&& z == s.len()
}

/// The parity digit run of a Steam2 string.
pub open spec fn steam2_y(s: Seq<char>) -> nat {
    let x = digit_run_end(s, 6);
    let y = digit_run_end(s, x + 1);
    dec_val(s.subrange(x + 1, y))
}

/// The account-number digit run of a Steam2 string.
pub open spec fn steam2_z(s: Seq<char>) -> nat {
    let x = digit_run_end(s, 6);
    let y = digit_run_end(s, x + 1);
    dec_val(s.subrange(y + 1, s.len() as int))
}

/// Parse a digit run as a `u64`, given its bounds in the string.
fn parse_digit_run(s: &str, from: usize, to: usize) -> (r: Option<u64>)
    requires
        from < to <= s@.len(),
        forall|j: int| from <= j < to ==> is_dec_digit(#[trigger] s@[j]),
    ensures
        r is Some <==> dec_val(s@.subrange(from as int, to as int)) <= u64::MAX,
        r matches Some(v) ==> v == dec_val(s@.subrange(from as int, to as int)),
{
    let run = s.substring_char(from, to);
    let ghost seg = s@.subrange(from as int, to as int);
    proof {
        assert(run@ == seg);
        assert forall|j: int| 0 <= j < seg.len() implies is_dec_digit(#[trigger] seg[j]) by {
            assert(seg[j] == s@[from + j]);
        }
        assert(seg[0] == s@[from as int]);
        assert(seg[0] != '+');
        assert(strip_plus(seg) == seg);
    }
    parse_u64(run)
}

/// Try the SteamID3 form. Yields the outer result exactly when the form
/// matches; the inner result is the account id when it fits in 32 bits.
fn try_parse_id3(s: &str, n: usize) -> (r: Option<Result<u32, SteamError>>)
    requires
        n == s@.len(),
    ensures
        r is Some <==> id3_match(s@),
        r matches Some(inner) ==> {
            &&& inner is Ok <==> id3_value(s@) <= u32::MAX
            &&& (inner matches Ok(v) ==> v == id3_value(s@))
            &&& (inner matches Err(e) ==> e is InvalidSteamId64)
        },
{
    if n < 7 {
        return None;
    }
    if !(s.get_char(0) == '[' && is_ascii_alpha_char(s.get_char(1)) && s.get_char(2) == ':') {
        return None;
    }
    let m = scan_digits(s, 3, n);
    if !(m > 3 && m < n && s.get_char(m) == ':') {
        return None;
    }
    let e = scan_digits(s, m + 1, n);
    if !(e > m + 1 && e == n - 1 && s.get_char(e) == ']') {
        return None;
    }
    let v = match parse_digit_run(s, m + 1, e) {
        Some(v) => v,
        None => {
            return Some(Err(SteamError::InvalidSteamId64));
        },
    };
    if v <= u32::MAX as u64 {
        Some(Ok(v as u32))
    } else {
        Some(Err(SteamError::InvalidSteamId64))
    }
}

/// Try the classic Steam2 form; the account id is twice the account number
/// plus the parity digit.
fn try_parse_steam2(s: &str, n: usize) -> (r: Option<Result<u32, SteamError>>)
    requires
        n == s@.len(),
    ensures
        r is Some <==> steam2_match(s@),
        r matches Some(inner) ==> {
            &&& inner is Ok <==> steam2_y(s@) <= 1 && 2 * steam2_z(s@) + steam2_y(s@) <= u32::MAX
            &&& (inner matches Ok(v) ==> v == 2 * steam2_z(s@) + steam2_y(s@))
            &&& (inner matches Err(e) ==> e is InvalidSteamId64)
        },
{
    if n < 6 {
        return None;
    }
    if !(lower_code_char(s.get_char(0)) == 's' as u32 && lower_code_char(s.get_char(1)) == 't' as u32
        && lower_code_char(s.get_char(2)) == 'e' as u32 && lower_code_char(s.get_char(3)) == 'a' as u32
        && lower_code_char(s.get_char(4)) == 'm' as u32 && s.get_char(5) == '_') {
        return None;
    }
    let x = scan_digits(s, 6, n);
    if !(x > 6 && x < n && s.get_char(x) == ':') {
        return None;
    }
    let y_end = scan_digits(s, x + 1, n);
    if !(y_end > x + 1 && y_end < n && s.get_char(y_end) == ':') {
        return None;
    }
    let z_end = scan_digits(s, y_end + 1, n);
    if !(z_end > y_end + 1 && z_end == n) {
        return None;
    }
    let y = match parse_digit_run(s, x + 1, y_end) {
        Some(v) => v,
        None => {
            proof {
                assert(steam2_y(s@) > u64::MAX);
            }
            return Some(Err(SteamError::InvalidSteamId64));
        },
    };
    if y > 1 {
        return Some(Err(SteamError::InvalidSteamId64));
    }
    let z = match parse_digit_run(s, y_end + 1, n) {
        Some(v) => v,
        None => {
            proof {
                assert(steam2_z(s@) > u64::MAX);
            }
            return Some(Err(SteamError::InvalidSteamId64));
        },
    };
    let doubled = match z.checked_mul(2) {
        Some(d) => d,
        None => {
            return Some(Err(SteamError::InvalidSteamId64));
        },
    };
    let acc = match doubled.checked_add(y) {
        Some(a) => a,
        None => {
            return Some(Err(SteamError::InvalidSteamId64));
        },
    };
    if acc <= u32::MAX as u64 {
        Some(Ok(acc as u32))
    } else {
        Some(Err(SteamError::InvalidSteamId64))
    }
}

/// Parse a SteamID3 string, a classic Steam2 string, or a raw decimal
/// account id into a 32-bit account id. The forms are tried in that order;
/// anything else is rejected.
pub fn parse_steamid3_or_account_id(input: &str) -> (r: Result<u32, SteamError>)
    ensures
        ({
            let t = trim_spec(input@);
            &&& id3_match(t) ==> {
                &&& r is Ok <==> id3_value(t) <= u32::MAX
                &&& (r matches Ok(v) ==> v == id3_value(t))
            }
            &&& !id3_match(t) && steam2_match(t) ==> {
                &&& r is Ok <==> steam2_y(t) <= 1 && 2 * steam2_z(t) + steam2_y(t) <= u32::MAX
                &&& (r matches Ok(v) ==> v == 2 * steam2_z(t) + steam2_y(t))
            }
            &&& !id3_match(t) && !steam2_match(t) && dec_digits_ok(t) ==> {
                &&& r is Ok <==> dec_val(t) <= u32::MAX
                &&& (r matches Ok(v) ==> v == dec_val(t))
            }
            &&& !id3_match(t) && !steam2_match(t) && !dec_digits_ok(t) ==> r is Err
            &&& (r matches Err(e) ==> e is InvalidSteamId64)
        }),
{
    let trimmed = trim_str(input);
    let t = trimmed.as_str();
    let n = t.unicode_len();
    if let Some(inner) = try_parse_id3(t, n) {
        return inner;
    }
    if let Some(inner) = try_parse_steam2(t, n) {
        return inner;
    }
    let m = scan_digits(t, 0, n);
    if n > 0 && m == n {
        proof {
            assert(t@.subrange(0, n as int) =~= t@);
        }
        let v = match parse_digit_run(t, 0, n) {
            Some(v) => v,
            None => {
                return Err(SteamError::InvalidSteamId64);
            },
        };
        if v <= u32::MAX as u64 {
            return Ok(v as u32);
        }
        return Err(SteamError::InvalidSteamId64);
    }
    proof {
        if n > 0 {
            assert(!is_dec_digit(t@[m as int]));
        }
    }
    Err(SteamError::InvalidSteamId64)
}

/// Host and path of a parsed absolute URL, as plain values.
pub struct UrlParts {
    pub host: Option<String>,
    pub segments: Option<Vec<String>>,
}

pub uninterp spec fn url_parse_ok(s: Seq<char>) -> bool;

pub uninterp spec fn url_host_of(s: Seq<char>) -> Option<Seq<char>>;

pub uninterp spec fn url_segments_of(s: Seq<char>) -> Option<Seq<Seq<char>>>;

/// Relies on url::Url::parse, url::Url::host_str and url::Url::path_segments:
/// whether a string parses as an absolute URL, and if so its host and path
/// segments, are functions of that string alone.
#[verifier::external_body]
fn split_url(s: &str) -> (r: Option<UrlParts>)
    ensures
        r is Some <==> url_parse_ok(s@),
        r matches Some(p) ==> p.host.deep_view() == url_host_of(s@) && p.segments.deep_view()
            == url_segments_of(s@),
{
    match url::Url::parse(s) {
        Ok(u) => {
            let host = u.host_str().map(|h| h.to_string());
            let segments = u.path_segments().map(|it| it.map(|x| x.to_string()).collect());
            Some(UrlParts { host, segments })
        },
        Err(_) => None,
    }
}

/// The path segments that are not empty, in order.
pub open spec fn nonempty_segments(segs: Seq<Seq<char>>) -> Seq<Seq<char>>
    decreases segs.len(),
{
    if segs.len() == 0 {
        Seq::empty()
    } else {
        let rest = nonempty_segments(segs.drop_last());
        if segs.last().len() > 0 {
            rest.push(segs.last())
        } else {
            rest
        }
    }
}

#[verifier::loop_isolation(false)]
fn filter_nonempty(v: &Vec<String>) -> (r: Vec<String>)
    ensures
        r.deep_view() == nonempty_segments(v.deep_view()),
{
    let mut r: Vec<String> = Vec::new();
    let mut i: usize = 0;
    while i < v.len()
        invariant
            0 <= i <= v.len(),
            r.deep_view() == nonempty_segments(v.deep_view().take(i as int)),
        decreases v.len() - i,
    {
        let ghost pre = v.deep_view().take(i as int);
        let ghost ext = v.deep_view().take(i + 1);
        proof {
            assert(ext.drop_last() =~= pre);
            assert(ext.last() == v.deep_view()[i as int]);
        }
        if !v[i].as_str().is_empty() {
            r.push(v[i].clone());
            proof {
                assert(r.deep_view() =~= nonempty_segments(ext));
            }
        } else {
            proof {
                assert(r.deep_view() == nonempty_segments(ext));
            }
        }
        i += 1;
    }
    proof {
        assert(v.deep_view().take(v.len() as int) =~= v.deep_view());
    }
    r
}

/// Character-wise equality of two strings, ASCII case folded.
pub open spec fn eq_ignore_ascii_case_spec(a: Seq<char>, b: Seq<char>) -> bool {
    a.len() == b.len() && forall|i: int|
        0 <= i < a.len() ==> lower_code(#[trigger] a[i]) == lower_code(b[i])
}

#[verifier::loop_isolation(false)]
fn eq_ignore_ascii_case(a: &str, b: &str) -> (r: bool)
    ensures
        r == eq_ignore_ascii_case_spec(a@, b@),
{
    let na = a.unicode_len();
    let nb = b.unicode_len();
    if na != nb {
        return false;
    }
    let mut i: usize = 0;
    while i < na
        invariant
            0 <= i <= na,
            forall|j: int| 0 <= j < i ==> lower_code(#[trigger] a@[j]) == lower_code(b@[j]),
        decreases na - i,
    {
        if lower_code_char(a.get_char(i)) != lower_code_char(b.get_char(i)) {
            return false;
        }
        i += 1;
    }
    true
}

/// The community site's host name, with or without the leading `www`.
pub open spec fn is_steam_host(h: Seq<char>) -> bool {
    eq_ignore_ascii_case_spec(h, "steamcommunity.com"@) || eq_ignore_ascii_case_spec(
        h,
        "www.steamcommunity.com"@,
    )
}

/// A URL host that the community-URL forms accept.
pub open spec fn url_host_ok(host: Option<Seq<char>>) -> bool {
    host matches Some(h) && is_steam_host(h)
}

/// What the caller should do with one reference to a Steam identity.
pub enum SteamIdInput {
    /// A validated SteamID64, ready to use.
    Resolved(String),
    /// A vanity name that must be resolved through the web API.
    NeedsVanity(String),
}

/// What the community-URL rules yield for a given host and segment list.
pub open spec fn community_url_outcome(
    host: Option<Seq<char>>,
    segs: Option<Seq<Seq<char>>>,
    r: Result<SteamIdInput, SteamError>,
) -> bool {
    &&& !url_host_ok(host) ==> (r matches Err(e) && e is InvalidCommunityUrl)
    &&& url_host_ok(host) && segs is None ==> (r matches Err(e) && e is InvalidCommunityUrl)
    &&& url_host_ok(host) && segs is Some ==> ({
        let ne = nonempty_segments(segs.unwrap());
        &&& ne.len() >= 2 && ne[0] == "profiles"@ && is_steamid64_spec(ne[1]) && dec_val(ne[1])
            >= STEAMID64_MIN ==> (r matches Ok(SteamIdInput::Resolved(s)) && s@ == ne[1])
        &&& ne.len() >= 2 && ne[0] == "profiles"@ && !(is_steamid64_spec(ne[1]) && dec_val(ne[1])
            >= STEAMID64_MIN) ==> (r matches Err(e) && e is InvalidSteamId64)
        &&& ne.len() >= 2 && ne[0] != "profiles"@ && ne[0] == "id"@ ==> (r matches Ok(
            SteamIdInput::NeedsVanity(nm),
        ) && nm@ == ne[1])
        &&& ne.len() < 2 || (ne[0] != "profiles"@ && ne[0] != "id"@) ==> (r matches Err(e)
            && e is InvalidCommunityUrl)
    })
}

/// Decide what a community URL denotes, given its parsed host and segments.
pub fn steam_url_decision(parts: &UrlParts) -> (r: Result<SteamIdInput, SteamError>)
    ensures
        community_url_outcome(parts.host.deep_view(), parts.segments.deep_view(), r),
{
    let host = match &parts.host {
        Some(h) => h,
        None => {
            return Err(SteamError::InvalidCommunityUrl);
        },
    };
    if !(eq_ignore_ascii_case(host.as_str(), "steamcommunity.com") || eq_ignore_ascii_case(
        host.as_str(),
        "www.steamcommunity.com",
    )) {
        return Err(SteamError::InvalidCommunityUrl);
    }
    let segs = match &parts.segments {
        Some(ss) => ss,
        None => {
            return Err(SteamError::InvalidCommunityUrl);
        },
    };
    let ne = filter_nonempty(segs);
    if ne.len() < 2 {
        return Err(SteamError::InvalidCommunityUrl);
    }
    if crate::strutil::str_eq(ne[0].as_str(), "profiles") {
        let id = &ne[1];
        match validate_steamid64(id.as_str()) {
            Ok(()) => Ok(SteamIdInput::Resolved(id.clone())),
            Err(_) => Err(SteamError::InvalidSteamId64),
        }
    } else if crate::strutil::str_eq(ne[0].as_str(), "id") {
        Ok(SteamIdInput::NeedsVanity(ne[1].clone()))
    } else {
        Err(SteamError::InvalidCommunityUrl)
    }
}

/// Whether the text contains a path or scheme separator.
#[verifier::loop_isolation(false)]
fn has_slash_or_colon(s: &str) -> (r: bool)
    ensures
        r == (s@.contains('/') || s@.contains(':')),
{
    let n = s.unicode_len();
    let mut i: usize = 0;
    while i < n
        invariant
            0 <= i <= n,
            forall|j: int| 0 <= j < i ==> s@[j] != '/' && s@[j] != ':',
        decreases n - i,
    {
        let c = s.get_char(i);
        if c == '/' || c == ':' {
            return true;
        }
        i += 1;
    }
    proof {
        if s@.contains('/') {
            let j = choose|j: int| 0 <= j < s@.len() && s@[j] == '/';
            assert(s@[j] != '/');
        }
        if s@.contains(':') {
            let j = choose|j: int| 0 <= j < s@.len() && s@[j] == ':';
            assert(s@[j] != ':');
        }
    }
    false
}

/// The text begins with the four letters of an URL scheme prefix.
pub open spec fn starts_with_http(s: Seq<char>) -> bool {
    s.len() >= 4 && s[0] == 'h' && s[1] == 't' && s[2] == 't' && s[3] == 'p'
}

fn starts_with_http_str(s: &str, n: usize) -> (r: bool)
    requires
        n == s@.len(),
    ensures
        r == starts_with_http(s@),
{
    n >= 4 && s.get_char(0) == 'h' && s.get_char(1) == 't' && s.get_char(2) == 't' && s.get_char(3)
        == 'p'
}

/// Classify one reference to a Steam identity: a raw SteamID64, a community
/// URL carrying either a SteamID64 or a vanity name, or a bare vanity name.
pub fn steam_input_action(input: &str) -> (r: Result<SteamIdInput, SteamError>)
    ensures
        ({
            let t = trim_spec(input@);
            &&& is_steamid64_spec(t) && dec_val(t) >= STEAMID64_MIN ==> (r matches Ok(
                SteamIdInput::Resolved(s),
            ) && s@ == t)
            &&& is_steamid64_spec(t) && dec_val(t) < STEAMID64_MIN ==> (r matches Err(e)
                && e is InvalidSteamId64)
            &&& !is_steamid64_spec(t) && url_parse_ok(t) ==> community_url_outcome(
                url_host_of(t),
                url_segments_of(t),
                r,
            )
            &&& !is_steamid64_spec(t) && !url_parse_ok(t) && (t.contains('/') || t.contains(':')
                || starts_with_http(t)) ==> (r matches Err(e) && e is InvalidCommunityUrl)
            &&& !is_steamid64_spec(t) && !url_parse_ok(t) && !(t.contains('/') || t.contains(':')
                || starts_with_http(t)) ==> (r matches Ok(SteamIdInput::NeedsVanity(nm)) && nm@
                == t)
        }),
{
    let trimmed = trim_str(input);
    let t = trimmed.as_str();
    if is_steamid64(t) {
        return match validate_steamid64(t) {
            Ok(()) => Ok(SteamIdInput::Resolved(trimmed)),
            Err(e) => Err(e),
        };
    }
    match split_url(t) {
        Some(parts) => steam_url_decision(&parts),
        None => {
            let n = t.unicode_len();
            if has_slash_or_colon(t) || starts_with_http_str(t, n) {
                Err(SteamError::InvalidCommunityUrl)
            } else {
                Ok(SteamIdInput::NeedsVanity(trimmed))
            }
        },
    }
}

/// Interpret the web API's vanity-resolution response: a success flag of one
/// carries the resolved id, anything else is reported with the response's
/// message.
pub fn vanity_outcome(success: i32, steamid: Option<String>, message: Option<String>) -> (r: Result<
    String,
    SteamError,
>)
    requires
        success == 1 ==> steamid is Some,
    ensures
        success == 1 ==> (r matches Ok(s) && s@ == steamid.unwrap()@),
        success != 1 && message is Some ==> (r matches Err(e) && e matches SteamError::Other(mm)
            && mm@ == message.unwrap()@),
        success != 1 && message is None ==> (r matches Err(e) && e matches SteamError::Other(mm)
            && mm@ == "Vanity not found"@),
{
    if success == 1 {
        match steamid {
            Some(s) => Ok(s),
            None => Err(SteamError::Other("Vanity not found".to_owned())),
        }
    } else {
        match message {
            Some(m) => Err(SteamError::Other(m)),
            None => Err(SteamError::Other("Vanity not found".to_owned())),
        }
    }
}

} // verus!
