//! Date and time texts: ISO 8601 as tools give them, and the basic forms of
//! iCalendar (`20260301T100000Z`, `20260301`).
use vstd::prelude::*;
use vstd::string::*;

use crate::error::CaldavError;
use crate::text::{
    chars_of, concat2, digit_value, digits_value, has_char, is_digit, string_of, trim_end_char, trim_end_char_len,
};

verus! {

broadcast use vstd::string::group_string_axioms;

// ---------------------------------------------------------------------------
// Byte offsets in UTF-8 text
// ---------------------------------------------------------------------------

/// The number of bytes of `c` in UTF-8.
pub open spec fn utf8_width(c: char) -> nat {
    if (c as u32) < 0x80 {
        1
    } else if (c as u32) < 0x800 {
        2
    } else if (c as u32) < 0x10000 {
        3
    } else {
        4
    }
}

/// The number of bytes of `s` in UTF-8 (what `str::len` returns).
pub open spec fn utf8_len(s: Seq<char>) -> nat
    decreases s.len(),
{
    if s.len() == 0 {
        0
    } else {
        utf8_width(s[0]) + utf8_len(s.drop_first())
    }
}

/// The position of the character that starts at byte `b` of `s`, where `b`
/// is a character boundary of `s`.
pub open spec fn char_at_byte(s: Seq<char>, b: nat) -> Option<nat>
    decreases s.len(),
{
    if b == 0 {
        Some(0)
    } else if s.len() == 0 {
        None
    } else if b < utf8_width(s[0]) {
        None
    } else {
        match char_at_byte(s.drop_first(), (b - utf8_width(s[0])) as nat) {
            Some(k) => Some(k + 1),
            None => None,
        }
    }
}

/// `&s[a..b]` for byte offsets `a <= b`: the text between them where both are
/// character boundaries, and nothing where slicing would panic.
pub open spec fn byte_slice(s: Seq<char>, a: nat, b: nat) -> Option<Seq<char>> {
    match (char_at_byte(s, a), char_at_byte(s, b)) {
        (Some(i), Some(j)) => if i <= j {
            Some(s.subrange(i as int, j as int))
        } else {
            None
        },
        _ => None,
    }
}

fn width_exec(c: char) -> (w: usize)
    ensures
        w == utf8_width(c),
{
    if (c as u32) < 0x80 {
        1
    } else if (c as u32) < 0x800 {
        2
    } else if (c as u32) < 0x10000 {
        3
    } else {
        4
    }
}

/// `min(utf8_len(v[0..n]), 16)`.
fn utf8_len_upto16(v: &Vec<char>, n: usize) -> (r: usize)
    requires
        n <= v@.len(),
    ensures
        r == if utf8_len(v@.take(n as int)) < 16 {
            utf8_len(v@.take(n as int))
        } else {
            16
        },
{
    let ghost s = v@.take(n as int);
    let mut k: usize = 0;
    let mut acc: usize = 0;
    assert(s.skip(0) =~= s);
    while k < n && acc < 16
        invariant
            k <= n <= v@.len(),
            s == v@.take(n as int),
            acc <= 20,
            utf8_len(s) == acc + utf8_len(s.skip(k as int)),
        decreases n - k,
    {
        assert(s.skip(k as int).drop_first() =~= s.skip(k + 1));
        acc = acc + width_exec(v[k]);
        k = k + 1;
    }
    if acc >= 16 {
        16
    } else {
        assert(s.skip(k as int) =~= Seq::<char>::empty());
        acc
    }
}

/// The position of the character that starts at byte `b` of `v[0..n]`.
fn char_at_byte_exec(v: &Vec<char>, n: usize, b: usize) -> (r: Option<usize>)
    requires
        n <= v@.len(),
        b <= 16,
    ensures
        match r {
            Some(k) => char_at_byte(v@.take(n as int), b as nat) == Some(k as nat),
            None => char_at_byte(v@.take(n as int), b as nat) is None,
        },
{
    let ghost s = v@.take(n as int);
    let mut k: usize = 0;
    let mut acc: usize = 0;
    assert(s.skip(0) =~= s);
    while acc < b && k < n
        invariant
            k <= n <= v@.len(),
            s == v@.take(n as int),
            acc <= b <= 16,
            char_at_byte(s, b as nat) == (match char_at_byte(s.skip(k as int), (b - acc) as nat) {
                Some(j) => Some((j + k) as nat),
                None => None,
            }),
        decreases n - k,
    {
        let w = width_exec(v[k]);
        assert(s.skip(k as int)[0] == v@[k as int]);
        if acc + w > b {
            return None;
        }
        assert(s.skip(k as int).drop_first() =~= s.skip(k + 1));
        acc = acc + w;
        k = k + 1;
    }
    if acc == b {
        Some(k)
    } else {
        assert(s.skip(k as int) =~= Seq::<char>::empty());
        None
    }
}

/// `&v[0..n][a..b]` by bytes, or nothing where that slicing panics.
fn byte_slice_exec(v: &Vec<char>, n: usize, a: usize, b: usize) -> (r: Option<String>)
    requires
        n <= v@.len(),
        a <= b <= 16,
    ensures
        match r {
            Some(t) => byte_slice(v@.take(n as int), a as nat, b as nat) == Some(t@),
            None => byte_slice(v@.take(n as int), a as nat, b as nat) is None,
        },
{
    match (char_at_byte_exec(v, n, a), char_at_byte_exec(v, n, b)) {
        (Some(i), Some(j)) => {
            if i <= j {
                proof {
                    lemma_char_at_byte_bound(v@.take(n as int), b as nat);
                }
                let t = string_of(v, i, j);
                assert(t@ =~= v@.take(n as int).subrange(i as int, j as int));
                Some(t)
            } else {
                None
            }
        },
        _ => None,
    }
}

proof fn lemma_char_at_byte_bound(s: Seq<char>, b: nat)
    ensures
        char_at_byte(s, b) matches Some(k) ==> k <= s.len(),
    decreases s.len(),
{
    if b != 0 && s.len() > 0 && b >= utf8_width(s[0]) {
        lemma_char_at_byte_bound(s.drop_first(), (b - utf8_width(s[0])) as nat);
    }
}

// ---------------------------------------------------------------------------
// iCalendar date-time to ISO 8601
// ---------------------------------------------------------------------------

/// The ISO 8601 text for an iCalendar date or date-time.  With the trailing
/// `Z`s taken off: a text that holds a `T` and has at least 15 bytes gives
/// `YYYY-MM-DDTHH:MM:SSZ` from bytes 0–4, 4–6, 6–8, 9–11, 11–13 and 13–15;
/// an 8-byte text gives `YYYY-MM-DD`; any other text is returned as it is.
/// Nothing, where a byte offset used is not a character boundary (slicing
/// there panics).
pub open spec fn iso_of_ical(dt: Seq<char>) -> Option<Seq<char>> {
    let s = trim_end_char(dt, 'Z');
    if has_char(s, 'T') && utf8_len(s) >= 15 {
        match (
            byte_slice(s, 0, 4),
            byte_slice(s, 4, 6),
            byte_slice(s, 6, 8),
            byte_slice(s, 9, 11),
            byte_slice(s, 11, 13),
            byte_slice(s, 13, 15),
        ) {
            (Some(y), Some(mo), Some(d), Some(h), Some(mi), Some(se)) => Some(
                y + "-"@ + mo + "-"@ + d + "T"@ + h + ":"@ + mi + ":"@ + se + "Z"@,
            ),
            _ => None,
        }
    } else if utf8_len(s) == 8 {
        match (byte_slice(s, 0, 4), byte_slice(s, 4, 6), byte_slice(s, 6, 8)) {
            (Some(y), Some(mo), Some(d)) => Some(y + "-"@ + mo + "-"@ + d),
            _ => None,
        }
    } else {
        Some(dt)
    }
}

/// Whether `ical_dt_to_iso` can convert `dt` (where it cannot, the slicing it
/// does would panic).
pub open spec fn ical_dt_convertible(dt: Seq<char>) -> bool {
    iso_of_ical(dt) is Some
}

fn has_char_exec(v: &Vec<char>, n: usize, c: char) -> (b: bool)
    requires
        n <= v@.len(),
    ensures
        b == has_char(v@.take(n as int), c),
{
    let mut i: usize = 0;
    while i < n
        invariant
            i <= n <= v@.len(),
            forall|j: int| 0 <= j < i ==> v@[j] != c,
        decreases n - i,
    {
        if v[i] == c {
            assert(v@.take(n as int)[i as int] == c);
            return true;
        }
        i = i + 1;
    }
    false
}

/// `ical_dt_to_iso`, or nothing where it would panic.
pub fn ical_dt_to_iso_checked(ical_dt: &str) -> (r: Option<String>)
    ensures
        match r {
            Some(t) => iso_of_ical(ical_dt@) == Some(t@),
            None => iso_of_ical(ical_dt@) is None,
        },
{
    let v = chars_of(ical_dt);
    let n = trim_end_char_len(&v, 'Z');
    let len = utf8_len_upto16(&v, n);
    if has_char_exec(&v, n, 'T') && len >= 15 {
        let y = byte_slice_exec(&v, n, 0, 4);
        let mo = byte_slice_exec(&v, n, 4, 6);
        let d = byte_slice_exec(&v, n, 6, 8);
        let h = byte_slice_exec(&v, n, 9, 11);
        let mi = byte_slice_exec(&v, n, 11, 13);
        let se = byte_slice_exec(&v, n, 13, 15);
        match (y, mo, d, h, mi, se) {
            (Some(y), Some(mo), Some(d), Some(h), Some(mi), Some(se)) => {
                let mut r = y;
                r.append("-");
                r.append(mo.as_str());
                r.append("-");
                r.append(d.as_str());
                r.append("T");
                r.append(h.as_str());
                r.append(":");
                r.append(mi.as_str());
                r.append(":");
                r.append(se.as_str());
                r.append("Z");
                Some(r)
            },
            _ => None,
        }
    } else if len == 8 {
        let y = byte_slice_exec(&v, n, 0, 4);
        let mo = byte_slice_exec(&v, n, 4, 6);
        let d = byte_slice_exec(&v, n, 6, 8);
        match (y, mo, d) {
            (Some(y), Some(mo), Some(d)) => {
                let mut r = y;
                r.append("-");
                r.append(mo.as_str());
                r.append("-");
                r.append(d.as_str());
                Some(r)
            },
            _ => None,
        }
    } else {
        Some(String::from_str(ical_dt))
    }
}

/// Converts an iCalendar date-time (`20260301T100000Z`) or date
/// (`20260301`) to ISO 8601 (`2026-03-01T10:00:00Z`, `2026-03-01`); any
/// other text comes back unchanged.
pub fn ical_dt_to_iso(ical_dt: &str) -> (r: String)
    requires
        ical_dt_convertible(ical_dt@),
    ensures
        Some(r@) == iso_of_ical(ical_dt@),
{
    match ical_dt_to_iso_checked(ical_dt) {
        Some(r) => r,
        None => String::new(),
    }
}

// ---------------------------------------------------------------------------
// ISO 8601 to iCalendar (through chrono)
// ---------------------------------------------------------------------------

/// What `chrono::DateTime::parse_from_rfc3339(iso)` yields, taken to UTC and
/// formatted with the chrono format string `fmt`; nothing where parsing fails.
pub uninterp spec fn rfc3339_in_utc(iso: Seq<char>, fmt: Seq<char>) -> Option<Seq<char>>;

/// What `chrono::NaiveDate::parse_from_str(text, in_fmt)` yields, formatted
/// with `out_fmt`; nothing where parsing fails.
pub uninterp spec fn date_reformat(text: Seq<char>, in_fmt: Seq<char>, out_fmt: Seq<char>) -> Option<
    Seq<char>,
>;

/// The chrono format strings that this library formats with.  Each is made
/// of valid specifiers only; chrono's `to_string` of a format that holds an
/// invalid one panics.
pub open spec fn known_format(fmt: Seq<char>) -> bool {
    fmt == ical_utc_format() || fmt == ical_date_format()
}

/// Whether `j` is a digit position of `YYYY-MM-DDTHH:MM:SSZ`.
pub open spec fn iso_utc_digit_at(j: int) -> bool {
    (0 <= j < 4) || (5 <= j < 7) || (8 <= j < 10) || (11 <= j < 13) || (14 <= j < 16) || (17
        <= j < 19)
}

/// An ISO 8601 UTC date-time written `YYYY-MM-DDTHH:MM:SSZ`.
pub open spec fn is_iso_utc(s: Seq<char>) -> bool {
    &&& s.len() == 20
    &&& s[4] == '-' && s[7] == '-' && s[10] == 'T' && s[13] == ':' && s[16] == ':' && s[19] == 'Z'
    &&& forall|j: int| iso_utc_digit_at(j) ==> is_digit(#[trigger] s[j])
}

/// The iCalendar form `YYYYMMDDTHHMMSSZ` of such a date-time: its digits,
/// with `T` and `Z` where they stand.
pub open spec fn ical_of_iso_utc(s: Seq<char>) -> Seq<char> {
    s.subrange(0, 4) + s.subrange(5, 7) + s.subrange(8, 10) + seq!['T'] + s.subrange(11, 13)
        + s.subrange(14, 16) + s.subrange(17, 19) + seq!['Z']
}

/// An ISO 8601 calendar date written `YYYY-MM-DD`.
pub open spec fn is_iso_date(s: Seq<char>) -> bool {
    &&& s.len() == 10
    &&& s[4] == '-' && s[7] == '-'
    &&& forall|j: int| (0 <= j < 4 || 5 <= j < 7 || 8 <= j < 10) ==> is_digit(#[trigger] s[j])
}

/// The iCalendar form `YYYYMMDD` of such a date: its digits.
pub open spec fn ical_of_iso_date(s: Seq<char>) -> Seq<char> {
    s.subrange(0, 4) + s.subrange(5, 7) + s.subrange(8, 10)
}

/// Parses an RFC 3339 date-time with `chrono::DateTime::parse_from_rfc3339`,
/// converts it to UTC and formats it with `fmt`.  The result depends on the
/// arguments alone and is named `rfc3339_in_utc`.  Claimed besides: a text
/// `YYYY-MM-DDTHH:MM:SSZ` that parses (it is already in UTC) comes out of the
/// iCalendar format as its own digits, `%Y` writing a year up to 9999 with
/// four digits; a date alone (`YYYY-MM-DD`) does not parse, RFC 3339 asking
/// for a time.
#[verifier::external_body]
fn rfc3339_to_utc_text(iso: &str, fmt: &str) -> (r: Option<String>)
    requires
        known_format(fmt@),
    ensures
        match r {
            Some(t) => rfc3339_in_utc(iso@, fmt@) == Some(t@),
            None => rfc3339_in_utc(iso@, fmt@) is None,
        },
        (fmt@ == ical_utc_format() && is_iso_utc(iso@) && r is Some) ==> r->0@ == ical_of_iso_utc(
            iso@,
        ),
        is_iso_date(iso@) ==> r is None,
{
    match chrono::DateTime::parse_from_rfc3339(iso) {
        Ok(dt) => Some(dt.with_timezone(&chrono::Utc).format(fmt).to_string()),
        Err(_) => None,
    }
}

/// Parses a calendar date with `chrono::NaiveDate::parse_from_str(text,
/// in_fmt)` and formats it with `out_fmt`.  The result depends on the
/// arguments alone and is named `date_reformat`.  Claimed besides: a text
/// `YYYY-MM-DD` that parses with the ISO date format comes out as its own
/// digits, `%Y` writing a year up to 9999 with four digits; a date-time
/// `YYYY-MM-DDTHH:MM:SSZ` does not parse with it, chrono refusing input left
/// over after the format.
#[verifier::external_body]
fn naive_date_reformat(text: &str, in_fmt: &str, out_fmt: &str) -> (r: Option<String>)
    requires
        out_fmt@ == ical_date_format(),
    ensures
        match r {
            Some(t) => date_reformat(text@, in_fmt@, out_fmt@) == Some(t@),
            None => date_reformat(text@, in_fmt@, out_fmt@) is None,
        },
        (in_fmt@ == iso_date_format() && is_iso_date(text@) && r is Some) ==> r->0@
            == ical_of_iso_date(text@),
        (in_fmt@ == iso_date_format() && is_iso_utc(text@)) ==> r is None,
{
    match chrono::NaiveDate::parse_from_str(text, in_fmt) {
        Ok(d) => Some(d.format(out_fmt).to_string()),
        Err(_) => None,
    }
}

/// The chrono format of an iCalendar UTC date-time.
pub open spec fn ical_utc_format() -> Seq<char> {
    "%Y%m%dT%H%M%SZ"@
}

/// The chrono format of an ISO 8601 calendar date.
pub open spec fn iso_date_format() -> Seq<char> {
    "%Y-%m-%d"@
}

/// The chrono format of an iCalendar date.
pub open spec fn ical_date_format() -> Seq<char> {
    "%Y%m%d"@
}

/// The text of the error for a date-time that cannot be read.
pub open spec fn invalid_datetime_text(iso: Seq<char>) -> Seq<char> {
    "invalid datetime: "@ + iso
}

/// What `iso_to_ical_dt` gives: a UTC date-time and `false` for an RFC 3339
/// date-time, else a date and `true` for a `YYYY-MM-DD` date, else the error
/// text.
pub open spec fn ical_of_iso(iso: Seq<char>) -> Result<(Seq<char>, bool), Seq<char>> {
    match rfc3339_in_utc(iso, ical_utc_format()) {
        Some(t) => Ok((t, false)),
        None => match date_reformat(iso, iso_date_format(), ical_date_format()) {
            Some(d) => Ok((d, true)),
            None => Err(invalid_datetime_text(iso)),
        },
    }
}

/// Converts an ISO 8601 date-time or date to iCalendar form, and says
/// whether it was a date alone (an all-day value).
pub fn iso_to_ical_dt(iso: &str) -> (r: Result<(String, bool), CaldavError>)
    ensures
        match (r, ical_of_iso(iso@)) {
            (Ok((t, all_day)), Ok((u, a))) => t@ == u && all_day == a,
            (Err(e), Err(msg)) => e.invalid_arg_text() == Some(msg),
            _ => false,
        },
        is_iso_utc(iso@) ==> (r matches Ok((t, all_day)) ==> t@ == ical_of_iso_utc(iso@) && !all_day
            && iso_of_ical(t@) == Some(iso@)),
        is_iso_date(iso@) ==> (r matches Ok((t, all_day)) ==> t@ == ical_of_iso_date(iso@) && all_day
            && iso_of_ical(t@) == Some(iso@)),
{
    if let Some(t) = rfc3339_to_utc_text(iso, "%Y%m%dT%H%M%SZ") {
        proof {
            if is_iso_utc(iso@) {
                lemma_iso_utc_back(iso@);
            }
        }
        return Ok((t, false));
    }
    if let Some(d) = naive_date_reformat(iso, "%Y-%m-%d", "%Y%m%d") {
        proof {
            if is_iso_date(iso@) {
                lemma_iso_date_back(iso@);
            }
        }
        return Ok((d, true));
    }
    Err(CaldavError::InvalidArg(concat2("invalid datetime: ", iso)))
}

/// ASCII text has one byte per character.
proof fn lemma_ascii_bytes(s: Seq<char>)
    requires
        forall|j: int| 0 <= j < s.len() ==> (#[trigger] s[j] as u32) < 0x80,
    ensures
        utf8_len(s) == s.len(),
        forall|b: nat| b <= s.len() ==> #[trigger] char_at_byte(s, b) == Some(b),
    decreases s.len(),
{
    if s.len() > 0 {
        let t = s.drop_first();
        assert forall|j: int| 0 <= j < t.len() implies (#[trigger] t[j] as u32) < 0x80 by {
            assert(t[j] == s[j + 1]);
        }
        lemma_ascii_bytes(t);
        assert(utf8_width(s[0]) == 1);
        assert forall|b: nat| b <= s.len() implies #[trigger] char_at_byte(s, b) == Some(b) by {
            if b > 0 {
                assert(char_at_byte(t, (b - 1) as nat) == Some((b - 1) as nat));
            }
        }
    }
}

/// Digits, `T` and `Z` are ASCII.
proof fn lemma_digits_ascii(s: Seq<char>)
    requires
        forall|j: int| 0 <= j < s.len() ==> is_digit(#[trigger] s[j]) || s[j] == 'T' || s[j] == 'Z',
    ensures
        forall|j: int| 0 <= j < s.len() ==> (#[trigger] s[j] as u32) < 0x80,
{
}

/// The iCalendar form of an ISO 8601 UTC date-time converts back to it.
proof fn lemma_iso_utc_back(iso: Seq<char>)
    requires
        is_iso_utc(iso),
    ensures
        iso_of_ical(ical_of_iso_utc(iso)) == Some(iso),
{
    reveal_strlit("-");
    reveal_strlit("T");
    reveal_strlit(":");
    reveal_strlit("Z");
    let t = ical_of_iso_utc(iso);
    assert(t.len() == 16);
    assert forall|j: int| 0 <= j < 16 implies (j == 8 ==> #[trigger] t[j] == 'T') && (j == 15 ==> t[j]
        == 'Z') && (j != 8 && j != 15 ==> is_digit(t[j])) by {
        if j < 4 {
            assert(t[j] == iso[j]);
        } else if j < 6 {
            assert(t[j] == iso[j + 1]);
        } else if j < 8 {
            assert(t[j] == iso[j + 2]);
        } else if j == 8 {
        } else if j < 11 {
            assert(t[j] == iso[j + 2]);
        } else if j < 13 {
            assert(t[j] == iso[j + 3]);
        } else if j < 15 {
            assert(t[j] == iso[j + 4]);
        }
    }
    let s = t.take(15);
    assert(trim_end_char(s, 'Z') == s) by {
        assert(is_digit(t[14]));
    }
    assert(t.drop_last() =~= s);
    assert(trim_end_char(t, 'Z') == s);
    lemma_digits_ascii(s);
    lemma_ascii_bytes(s);
    assert(has_char(s, 'T')) by {
        assert(s[8] == 'T');
    }
    assert(char_at_byte(s, 0) == Some(0nat));
    assert(char_at_byte(s, 4) == Some(4nat));
    assert(char_at_byte(s, 6) == Some(6nat));
    assert(char_at_byte(s, 8) == Some(8nat));
    assert(char_at_byte(s, 9) == Some(9nat));
    assert(char_at_byte(s, 11) == Some(11nat));
    assert(char_at_byte(s, 13) == Some(13nat));
    assert(char_at_byte(s, 15) == Some(15nat));
    let r = s.subrange(0, 4) + "-"@ + s.subrange(4, 6) + "-"@ + s.subrange(6, 8) + "T"@
        + s.subrange(9, 11) + ":"@ + s.subrange(11, 13) + ":"@ + s.subrange(13, 15) + "Z"@;
    assert(r =~= iso) by {
        assert forall|j: int| 0 <= j < 20 implies #[trigger] r[j] == iso[j] by {
            if j < 4 {
                assert(r[j] == t[j]);
            } else if j == 4 {
            } else if j < 7 {
                assert(r[j] == t[j - 1]);
            } else if j == 7 {
            } else if j < 10 {
                assert(r[j] == t[j - 2]);
            } else if j == 10 {
            } else if j < 13 {
                assert(r[j] == t[j - 2]);
            } else if j == 13 {
            } else if j < 16 {
                assert(r[j] == t[j - 3]);
            } else if j == 16 {
            } else if j < 19 {
                assert(r[j] == t[j - 4]);
            }
        }
    }
}

/// The iCalendar form of an ISO 8601 date converts back to it.
proof fn lemma_iso_date_back(iso: Seq<char>)
    requires
        is_iso_date(iso),
    ensures
        iso_of_ical(ical_of_iso_date(iso)) == Some(iso),
{
    reveal_strlit("-");
    let t = ical_of_iso_date(iso);
    assert(t.len() == 8);
    assert forall|j: int| 0 <= j < 8 implies is_digit(#[trigger] t[j]) by {
        if j < 4 {
            assert(t[j] == iso[j]);
        } else if j < 6 {
            assert(t[j] == iso[j + 1]);
        } else {
            assert(t[j] == iso[j + 2]);
        }
    }
    assert(trim_end_char(t, 'Z') == t) by {
        assert(is_digit(t[7]));
    }
    lemma_digits_ascii(t);
    lemma_ascii_bytes(t);
    assert(!has_char(t, 'T'));
    assert(char_at_byte(t, 0) == Some(0nat));
    assert(char_at_byte(t, 4) == Some(4nat));
    assert(char_at_byte(t, 6) == Some(6nat));
    assert(char_at_byte(t, 8) == Some(8nat));
    let r = t.subrange(0, 4) + "-"@ + t.subrange(4, 6) + "-"@ + t.subrange(6, 8);
    assert(r =~= iso) by {
        assert forall|j: int| 0 <= j < 10 implies #[trigger] r[j] == iso[j] by {
            if j < 4 {
                assert(r[j] == t[j]);
            } else if j == 4 {
            } else if j < 7 {
                assert(r[j] == t[j - 1]);
            } else if j == 7 {
            } else {
                assert(r[j] == t[j - 2]);
            }
        }
    }
}

// ---------------------------------------------------------------------------
// The clock
// ---------------------------------------------------------------------------

/// The value of the two decimal digits of `s` at `i` and `i + 1`.
pub open spec fn two_digits(s: Seq<char>, i: int) -> nat {
    digit_value(s[i]) * 10 + digit_value(s[i + 1])
}

/// Whether `s` is what chrono writes with the format `%Y%m%dT%H%M%SZ` for a
/// UTC date-time from 1970 on: the year (four digits up to 9999, later `+`
/// and more digits), then two digits each of month (1 to 12) and day (1 to
/// 31), `T`, two digits each of hour (0 to 23), minute (0 to 59) and second
/// (0 to 60, for a leap second), and `Z`.
pub open spec fn is_utc_stamp(s: Seq<char>) -> bool {
    let n = s.len() as int;
    &&& n >= 16
    &&& s[n - 1] == 'Z'
    &&& s[n - 8] == 'T'
    &&& forall|j: int| n - 12 <= j < n - 8 ==> is_digit(#[trigger] s[j])
    &&& forall|j: int| n - 7 <= j < n - 1 ==> is_digit(#[trigger] s[j])
    &&& 1 <= two_digits(s, n - 12) <= 12
    &&& 1 <= two_digits(s, n - 10) <= 31
    &&& two_digits(s, n - 7) <= 23
    &&& two_digits(s, n - 5) <= 59
    &&& two_digits(s, n - 3) <= 60
    &&& n == 16 ==> forall|j: int| 0 <= j < 4 ==> is_digit(#[trigger] s[j])
    &&& n > 16 ==> s[0] == '+' && forall|j: int| 1 <= j < n - 12 ==> is_digit(#[trigger] s[j])
}

/// The year of a stamp (see `is_utc_stamp`).
pub open spec fn stamp_year(s: Seq<char>) -> int {
    if s.len() == 16 {
        digits_value(s.take(4)) as int
    } else {
        digits_value(s.subrange(1, s.len() - 12)) as int
    }
}

/// The number of days from 1970-01-01 to the given day of the proleptic
/// Gregorian calendar (negative before it).
pub open spec fn days_from_civil(y: int, m: int, d: int) -> int {
    let y1 = if m <= 2 { y - 1 } else { y };
    let era = y1 / 400;
    let yoe = y1 - era * 400;
    let mp = if m > 2 { m - 3 } else { m + 9 };
    let doy = (153 * mp + 2) / 5 + d - 1;
    let doe = yoe * 365 + yoe / 4 - yoe / 100 + doy;
    era * 146097 + doe - 719468
}

/// The number of seconds from 1970-01-01T00:00:00Z to the time a stamp
/// writes (see `is_utc_stamp`).
pub open spec fn stamp_seconds(s: Seq<char>) -> int {
    let n = s.len() as int;
    days_from_civil(stamp_year(s), two_digits(s, n - 12) as int, two_digits(s, n - 10) as int)
        * 86400 + two_digits(s, n - 7) * 3600 + two_digits(s, n - 5) * 60 + two_digits(s, n - 3)
}

/// The current UTC time formatted with `fmt` (`chrono::Utc::now`).  The time
/// depends on the clock, so nothing is claimed of it; claimed is the form
/// chrono writes with the iCalendar format (see `is_utc_stamp`).  `Utc::now`
/// panics where the system clock is set before 1970, which no requirement
/// here can rule out.
#[verifier::external_body]
fn utc_now_text(fmt: &str) -> (r: String)
    requires
        known_format(fmt@),
    ensures
        fmt@ == ical_utc_format() ==> is_utc_stamp(r@),
{
    chrono::Utc::now().format(fmt).to_string()
}

/// The current UTC time and the time `days` days later, both formatted with
/// `fmt` (`chrono::Utc::now` read once).  They depend on the clock, so
/// nothing is claimed of the times; claimed is the form chrono writes with
/// the iCalendar format (see `is_utc_stamp`), and that the second is `days`
/// days after the first (`Utc::now` gives no leap second, so the sum moves the
/// calendar time by whole days).  A number of days up to a year
/// is in the range of `chrono::Duration::days`; `Utc::now` panics for a clock
/// set before 1970 and the sum for one set near the end of chrono's range of
/// dates, which no requirement here can rule out.
#[verifier::external_body]
fn utc_now_and_later_text(days: i64, fmt: &str) -> (r: (String, String))
    requires
        0 <= days <= 366,
        known_format(fmt@),
    ensures
        fmt@ == ical_utc_format() ==> is_utc_stamp(r.0@) && is_utc_stamp(r.1@) && stamp_seconds(
            r.1@,
        ) == stamp_seconds(r.0@) + days * 86400,
{
    let now = chrono::Utc::now();
    (now.format(fmt).to_string(), (now + chrono::Duration::days(days)).format(fmt).to_string())
}

/// The current time as an iCalendar UTC date-time.
pub fn now_ical() -> (r: String)
    ensures
        is_utc_stamp(r@),
{
    utc_now_text("%Y%m%dT%H%M%SZ")
}

/// The current time and the time thirty days later, as iCalendar UTC
/// date-times: the window that listing events uses by default.
pub fn default_event_window() -> (r: (String, String))
    ensures
        is_utc_stamp(r.0@),
        is_utc_stamp(r.1@),
        stamp_seconds(r.1@) == stamp_seconds(r.0@) + 30 * 86400,
{
    utc_now_and_later_text(30, "%Y%m%dT%H%M%SZ")
}

} // verus!
