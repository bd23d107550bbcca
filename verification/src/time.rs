//! How long ago a moment was, in the short form the listings print
//! ("just now", "5m ago", "3h ago", "4d ago", "10w ago", or the date).
//! Moments are Unix timestamps in whole seconds.
use vstd::prelude::*;

use crate::text::{chars_of, dec_i64, dec_int, dec_nat, extend_str, string_of};

verus! {

/// What `chrono` prints with `%Y-%m-%d` for the UTC date of a Unix
/// timestamp; `None` when the timestamp is out of `chrono`'s range.
pub uninterp spec fn utc_date_text(secs: i64) -> Option<Seq<char>>;

/// `s` padded on the left with zeros to at least `w` characters.
pub open spec fn zero_pad(s: Seq<char>, w: nat) -> Seq<char>
    decreases w - s.len(),
{
    if s.len() >= w {
        s
    } else {
        zero_pad(seq!['0'] + s, w)
    }
}

/// The proleptic Gregorian date (year, month, day) of the day `days` after
/// 1970-01-01 (before it when negative).
pub open spec fn civil_from_days(days: int) -> (int, int, int) {
    let z = days + 719468;
    let era = z / 146097;
    let doe = z - era * 146097;
    let yoe = (doe - doe / 1460 + doe / 36524 - doe / 146096) / 365;
    let doy = doe - (365 * yoe + yoe / 4 - yoe / 100);
    let mp = (5 * doy + 2) / 153;
    let d = doy - (153 * mp + 2) / 5 + 1;
    let m = if mp < 10 {
        mp + 3
    } else {
        mp - 9
    };
    let y = yoe + era * 400 + (if m <= 2 {
        1int
    } else {
        0int
    });
    (y, m, d)
}

/// The UTC date of the Unix timestamp `secs` as `YYYY-MM-DD`.
pub open spec fn civil_date_text(secs: int) -> Seq<char> {
    let (y, m, d) = civil_from_days(secs / 86400);
    zero_pad(dec_nat(y as nat), 4) + "-"@ + zero_pad(dec_nat(m as nat), 2) + "-"@ + zero_pad(
        dec_nat(d as nat),
        2,
    )
}

/// The timestamps of the years 0 to 9999, whose dates `%Y` writes with
/// four digits and no sign.
pub open spec fn four_digit_year(secs: int) -> bool {
    -62167219200 <= secs <= 253402300799
}

/// Formats the UTC date of `secs` with `chrono::DateTime::from_timestamp`
/// and `format("%Y-%m-%d")`: for the years 0 to 9999 the Gregorian date,
/// year, month and day zero-padded to 4, 2 and 2 digits.
#[verifier::external_body]
pub(crate) fn utc_date(secs: i64) -> (r: Option<String>)
    ensures
        four_digit_year(secs as int) ==> r is Some && r->Some_0@ == civil_date_text(secs as int),
        match utc_date_text(secs) {
            Some(t) => r matches Some(s) && s@ == t,
            None => r is None,
        },
{
    chrono::DateTime::from_timestamp(secs, 0).map(|d| d.format("%Y-%m-%d").to_string())
}

/// The date printed for a moment more than a year back (empty when the
/// moment has no calendar date).
pub open spec fn date_text(then: i64) -> Seq<char> {
    match utc_date_text(then) {
        Some(t) => t,
        None => ""@,
    }
}

/// How long before `now` the moment `then` was: under a minute (or in the
/// future) is "just now"; then whole minutes, hours, days and weeks; from
/// 52 weeks on, the date.
pub open spec fn relative_spec(now: i64, then: i64) -> Seq<char> {
    let d = now - then;
    if d < 60 {
        "just now"@
    } else if d < 3600 {
        dec_int(d / 60) + "m ago"@
    } else if d < 86400 {
        dec_int(d / 3600) + "h ago"@
    } else if d < 604800 {
        dec_int(d / 86400) + "d ago"@
    } else if d < 52 * 604800 {
        dec_int(d / 604800) + "w ago"@
    } else {
        date_text(then)
    }
}

/// How long before `now` the moment `then` was.
pub fn relative_time_at(now: i64, then: i64) -> (r: String)
    ensures
        r@ == relative_spec(now, then),
{
    let d: i128 = (now as i128) - (then as i128);
    if d < 60 {
        return string_of(&chars_of("just now"));
    }
    let (n, unit): (i128, &str) = if d < 3600 {
        (d / 60, "m ago")
    } else if d < 86400 {
        (d / 3600, "h ago")
    } else if d < 604800 {
        (d / 86400, "d ago")
    } else if d < 52 * 604800 {
        (d / 604800, "w ago")
    } else {
        return match utc_date(then) {
            Some(s) => s,
            None => string_of(&chars_of("")),
        };
    };
    let mut v = dec_i64(n as i64);
    extend_str(&mut v, unit);
    string_of(&v)
}

} // verus!
