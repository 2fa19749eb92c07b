use vstd::prelude::*;
use crate::structs::ParseError;

verus! {

/// Milliseconds in one day.
pub const MS_PER_DAY: i64 = 86_400_000;

/// What chrono reads out of an RFC 2822 date string, as epoch milliseconds;
/// `None` when the string does not parse.
pub uninterp spec fn rfc2822_ms(s: Seq<char>) -> Option<i64>;

/// Relies on chrono's `DateTime::parse_from_rfc2822`: the result is a
/// function of the string alone; the parsed instant is converted to epoch
/// milliseconds with `timestamp_millis`.
#[verifier::external_body]
pub fn parse_rfc2822_ms(s: &str) -> (r: Option<i64>)
    ensures
        r == rfc2822_ms(s@),
{
    chrono::DateTime::parse_from_rfc2822(s).ok().map(|d| d.timestamp_millis())
}

/// What chrono reads out of an RFC 3339 date string, as epoch milliseconds.
pub uninterp spec fn rfc3339_ms(s: Seq<char>) -> Option<i64>;

/// Relies on chrono's `DateTime::parse_from_rfc3339`, converted to epoch
/// milliseconds as above.
#[verifier::external_body]
pub fn parse_rfc3339_ms(s: &str) -> (r: Option<i64>)
    ensures
        r == rfc3339_ms(s@),
{
    chrono::DateTime::parse_from_rfc3339(s).ok().map(|d| d.timestamp_millis())
}

/// What chrono reads out of a date-and-time string under a strftime-style
/// pattern, as epoch milliseconds, the time taken as UTC.
pub uninterp spec fn fmt_datetime_ms(fmt: Seq<char>, s: Seq<char>) -> Option<i64>;

/// Relies on chrono's `NaiveDateTime::parse_from_str`, the parsed value taken
/// as UTC and converted to epoch milliseconds.
#[verifier::external_body]
pub fn parse_fmt_datetime_ms(fmt: &str, s: &str) -> (r: Option<i64>)
    ensures
        r == fmt_datetime_ms(fmt@, s@),
{
    chrono::NaiveDateTime::parse_from_str(s, fmt).ok().map(|d| d.and_utc().timestamp_millis())
}

/// What chrono reads out of a date-only string under a strftime-style
/// pattern, as epoch milliseconds of that day's midnight UTC.
pub uninterp spec fn fmt_date_ms(fmt: Seq<char>, s: Seq<char>) -> Option<i64>;

/// Relies on chrono's `NaiveDate::parse_from_str`; the date is taken at
/// midnight UTC (midnight is valid on every date) and converted to epoch
/// milliseconds.
#[verifier::external_body]
pub fn parse_fmt_date_ms(fmt: &str, s: &str) -> (r: Option<i64>)
    ensures
        r == fmt_date_ms(fmt@, s@),
{
    chrono::NaiveDate::parse_from_str(s, fmt).ok().map(
        |d| d.and_hms_opt(0, 0, 0).unwrap().and_utc().timestamp_millis(),
    )
}

/// What chrono reads out of an ISO 8601 date-and-time string, as epoch
/// milliseconds, the time taken as UTC.
pub uninterp spec fn iso_datetime_ms(s: Seq<char>) -> Option<i64>;

/// Relies on chrono's `FromStr` for `NaiveDateTime` (ISO 8601 shapes),
/// converted to epoch milliseconds as above.
#[verifier::external_body]
pub fn parse_iso_datetime_ms(s: &str) -> (r: Option<i64>)
    ensures
        r == iso_datetime_ms(s@),
{
    s.parse::<chrono::NaiveDateTime>().ok().map(|d| d.and_utc().timestamp_millis())
}

/// What chrono reads out of an ISO 8601 date-only string, as epoch
/// milliseconds of that day's midnight UTC.
pub uninterp spec fn iso_date_ms(s: Seq<char>) -> Option<i64>;

/// Relies on chrono's `FromStr` for `NaiveDate`, taken at midnight UTC and
/// converted to epoch milliseconds.
#[verifier::external_body]
pub fn parse_iso_date_ms(s: &str) -> (r: Option<i64>)
    ensures
        r == iso_date_ms(s@),
{
    s.parse::<chrono::NaiveDate>().ok().map(
        |d| d.and_hms_opt(0, 0, 0).unwrap().and_utc().timestamp_millis(),
    )
}

/// Relies on chrono's `Utc::now`. The clock can say anything, so nothing is
/// promised of the result.
#[verifier::external_body]
pub fn now_ms() -> i64 {
    chrono::Utc::now().timestamp_millis()
}

/// Parses an RFC 2822 date string to epoch milliseconds.
pub fn parse_date_rfc2822(date_string: &str) -> (r: Result<i64, ParseError>)
    ensures
        match r {
            Ok(t) => rfc2822_ms(date_string@) == Some(t),
            Err(e) => rfc2822_ms(date_string@) is None && e == ParseError::BadDate,
        },
{
    match parse_rfc2822_ms(date_string) {
        Some(t) => Ok(t),
        None => Err(ParseError::BadDate),
    }
}

/// Parses an RFC 3339 date string to epoch milliseconds.
pub fn parse_date_rfc3339(date_string: &str) -> (r: Result<i64, ParseError>)
    ensures
        match r {
            Ok(t) => rfc3339_ms(date_string@) == Some(t),
            Err(e) => rfc3339_ms(date_string@) is None && e == ParseError::BadDate,
        },
{
    match parse_rfc3339_ms(date_string) {
        Some(t) => Ok(t),
        None => Err(ParseError::BadDate),
    }
}

/// Largest whole-second timestamp whose milliseconds fit an `i64`.
pub const MAX_UNIX_SEC: i64 = 9_223_372_036_854_775;

/// Smallest whole-second timestamp whose milliseconds fit an `i64`.
pub const MIN_UNIX_SEC: i64 = -9_223_372_036_854_775;

/// Converts a Unix-seconds timestamp to epoch milliseconds.
pub fn parse_date_unix_seconds(timestamp: i64) -> (r: Result<i64, ParseError>)
    ensures
        match r {
            Ok(t) => t == timestamp * 1000 && MIN_UNIX_SEC <= timestamp <= MAX_UNIX_SEC,
            Err(e) => !(MIN_UNIX_SEC <= timestamp <= MAX_UNIX_SEC) && e == ParseError::BadDate,
        },
{
    if timestamp > MAX_UNIX_SEC || timestamp < MIN_UNIX_SEC {
        Err(ParseError::BadDate)
    } else {
        Ok(timestamp * 1000)
    }
}

/// A Unix-milliseconds timestamp already is epoch milliseconds.
pub fn parse_date_unix_millis(timestamp: i64) -> (r: Result<i64, ParseError>)
    ensures
        r == Ok::<i64, ParseError>(timestamp),
{
    Ok(timestamp)
}

/// Converts a Unix-nanoseconds timestamp to epoch milliseconds, flooring
/// as chrono's nanosecond clock does.
pub fn parse_date_unix_nanos(timestamp: i64) -> (r: Result<i64, ParseError>)
    ensures
        match r {
            Ok(t) => t == timestamp as int / 1_000_000,
            Err(_) => false,
        },
{
    if timestamp >= 0 {
        let q = ((timestamp as u64) / 1_000_000) as i64;
        Ok(q)
    } else {
        let m: u64 = ((-(timestamp + 1)) as u64) + 1;
        assert(m == -(timestamp as int));
        let q = (m + 999_999) / 1_000_000;
        let r = -(q as i64);
        proof {
            lemma_neg_div_floor(m as int, 1_000_000);
        }
        Ok(r)
    }
}

/// Flooring division of a negated magnitude: for positive `m` and `k`,
/// the Euclidean quotient of `-m` by `k` is the negated ceiling of `m / k`.
proof fn lemma_neg_div_floor(m: int, k: int)
    requires
        m > 0,
        k > 0,
    ensures
        (-m) / k == -((m + k - 1) / k),
{
    let q = m / k;
    let r = m % k;
    vstd::arithmetic::div_mod::lemma_fundamental_div_mod(m, k);
    vstd::arithmetic::div_mod::lemma_mod_bound(m, k);
    if r == 0 {
        assert(m + k - 1 == q * k + (k - 1) && -m == (-q) * k + 0) by (nonlinear_arith)
            requires
                m == k * q + r,
                r == 0,
        ;
        vstd::arithmetic::div_mod::lemma_fundamental_div_mod_converse_div(m + k - 1, k, q, k - 1);
        vstd::arithmetic::div_mod::lemma_fundamental_div_mod_converse_div(-m, k, -q, 0);
    } else {
        assert(m + k - 1 == (q + 1) * k + (r - 1) && -m == (-(q + 1)) * k + (k - r))
            by (nonlinear_arith)
            requires
                m == k * q + r,
        ;
        vstd::arithmetic::div_mod::lemma_fundamental_div_mod_converse_div(
            m + k - 1,
            k,
            q + 1,
            r - 1,
        );
        vstd::arithmetic::div_mod::lemma_fundamental_div_mod_converse_div(-m, k, -(q + 1), k - r);
    }
}

/// A strftime letter that asks for an hour: the hour fields themselves,
/// or a composite time-of-day specifier.
pub open spec fn spec_hour_letter(c: char) -> bool {
    c == 'H' || c == 'I' || c == 'k' || c == 'l' || c == 'R' || c == 'T' || c == 'X' || c == 'r'
}

/// A strftime padding modifier, allowed between `%` and the letter.
pub open spec fn spec_pad_char(c: char) -> bool {
    c == '-' || c == '_' || c == '0'
}

/// An hour specifier starts at position `i` of the pattern: a `%`, an
/// optional padding modifier, then an hour letter.
pub open spec fn spec_hour_at(s: Seq<char>, i: int) -> bool {
    &&& 0 <= i < s.len()
    &&& s[i] == '%'
    &&& ((i + 1 < s.len() && spec_hour_letter(s[i + 1])) || (i + 2 < s.len() && spec_pad_char(
        s[i + 1],
    ) && spec_hour_letter(s[i + 2])))
}

/// Whether a strftime pattern asks for a time of day.
pub open spec fn spec_has_hour(s: Seq<char>) -> bool {
    exists|i: int| spec_hour_at(s, i)
}

fn hour_letter(c: char) -> (r: bool)
    ensures
        r == spec_hour_letter(c),
{
    c == 'H' || c == 'I' || c == 'k' || c == 'l' || c == 'R' || c == 'T' || c == 'X' || c == 'r'
}

fn pad_char(c: char) -> (r: bool)
    ensures
        r == spec_pad_char(c),
{
    c == '-' || c == '_' || c == '0'
}

/// Scans a strftime pattern for an hour specifier; patterns without one
/// name a bare date, taken at midnight.
pub fn has_hour_specifier(fmt: &str) -> (r: bool)
    ensures
        r == spec_has_hour(fmt@),
{
    let n = fmt.unicode_len();
    let mut i: usize = 0;
    while i < n
        invariant
            n == fmt@.len(),
            i <= n,
            forall|j: int| 0 <= j < i ==> !spec_hour_at(fmt@, j),
        decreases n - i,
    {
        if fmt.get_char(i) == '%' {
            if i + 1 < n {
                let c1 = fmt.get_char(i + 1);
                if hour_letter(c1) {
                    assert(spec_hour_at(fmt@, i as int));
                    return true;
                }
                if pad_char(c1) && i + 2 < n {
                    let c2 = fmt.get_char(i + 2);
                    if hour_letter(c2) {
                        assert(spec_hour_at(fmt@, i as int));
                        return true;
                    }
                }
            }
        }
        assert(!spec_hour_at(fmt@, i as int));
        i = i + 1;
    }
    false
}

/// Announcement delay of a target, in milliseconds: the configured days,
/// zero when unset.
pub open spec fn spec_delay_ms(delay: Option<u8>) -> int {
    (match delay {
        Some(d) => d as int,
        None => 0,
    }) * MS_PER_DAY
}

/// The time a chapter of date `date` becomes announceable under `delay`:
/// `date + delay` in days; `None` when that leaves the timestamp range.
pub fn announce_time(date: i64, delay: Option<u8>) -> (r: Option<i64>)
    ensures
        match r {
            Some(t) => t == date + spec_delay_ms(delay),
            None => date + spec_delay_ms(delay) > i64::MAX,
        },
{
    let d: i64 = match delay {
        Some(x) => x as i64,
        None => 0,
    };
    assert(d * MS_PER_DAY == spec_delay_ms(delay) && 0 <= d * MS_PER_DAY <= 255 * 86_400_000)
        by (nonlinear_arith)
        requires
            0 <= d <= 255,
            d == (match delay {
                Some(x) => x as int,
                None => 0,
            }),
    ;
    let delta: i64 = d * MS_PER_DAY;
    date.checked_add(delta)
}

} // verus!
