//! Moments as bitplane prints them: RFC 3339 in UTC for the latch, and a
//! rough "how long ago" for a human.
//!
//! Reading the clock is the caller's; what is handed in is a count of
//! seconds.

use vstd::prelude::*;
use crate::text::{decimal, push_char, push_decimal, push_str};

verus! {

/// A leap year of the Gregorian calendar.
pub open spec fn is_leap(y: nat) -> bool {
    (y % 4 == 0 && y % 100 != 0) || y % 400 == 0
}

/// How many days year `y` has.
pub open spec fn year_length(y: nat) -> nat {
    if is_leap(y) { 366 } else { 365 }
}

/// How many days month `m` (1 to 12) of year `y` has.
pub open spec fn month_length(y: nat, m: nat) -> nat {
    if m == 2 {
        if is_leap(y) { 29 } else { 28 }
    } else if m == 4 || m == 6 || m == 9 || m == 11 {
        30
    } else {
        31
    }
}

/// The year `days` days after the first of January of year `y` falls in,
/// and the day of that year, counted from 0.
pub open spec fn civil_year(days: nat, y: nat) -> (nat, nat)
    decreases days,
{
    if days < year_length(y) {
        (y, days)
    } else {
        civil_year((days - year_length(y)) as nat, y + 1)
    }
}

/// The month day `doy` of year `y` falls in, counting from month `m`, and
/// the day of that month, counted from 0.
pub open spec fn civil_month(doy: nat, y: nat, m: nat) -> (nat, nat)
    decreases 12 - m,
{
    if m >= 12 || doy < month_length(y, m) {
        (m, doy)
    } else {
        civil_month((doy - month_length(y, m)) as nat, y, m + 1)
    }
}

/// `n` in decimal, zero-padded on the left to `width` digits.
pub open spec fn padded(n: nat, width: nat) -> Seq<char> {
    let d = decimal(n);
    if d.len() < width {
        Seq::new((width - d.len()) as nat, |i: int| '0') + d
    } else {
        d
    }
}

/// The moment `seconds` after the Unix epoch, in RFC 3339 in UTC:
/// `YYYY-MM-DDThh:mm:ssZ`.
pub open spec fn rfc3339_text(seconds: nat) -> Seq<char> {
    let (y, doy) = civil_year(seconds / 86400, 1970);
    let (m, d) = civil_month(doy, y, 1);
    let rest = seconds % 86400;
    padded(y, 4) + "-"@ + padded(m, 2) + "-"@ + padded(d + 1, 2) + "T"@ + padded(rest / 3600, 2) + ":"@ + padded(
        (rest % 3600) / 60,
        2,
    ) + ":"@ + padded(rest % 60, 2) + "Z"@
}

fn leap(y: u64) -> (r: bool)
    ensures
        r == is_leap(y as nat),
{
    (y % 4 == 0 && y % 100 != 0) || y % 400 == 0
}

fn days_in_year(y: u64) -> (n: u64)
    ensures
        n == year_length(y as nat),
{
    if leap(y) { 366 } else { 365 }
}

fn days_in_month(y: u64, m: u64) -> (n: u64)
    ensures
        n == month_length(y as nat, m as nat),
{
    if m == 2 {
        if leap(y) { 29 } else { 28 }
    } else if m == 4 || m == 6 || m == 9 || m == 11 {
        30
    } else {
        31
    }
}

/// Appends `n` zero-padded to `width` digits.
fn push_padded(s: &mut String, n: u64, width: u64)
    ensures
        final(s)@ == old(s)@ + padded(n as nat, width as nat),
{
    let mut digits = String::new();
    push_decimal(&mut digits, n);
    assert(digits@ =~= decimal(n as nat));
    let len = digits.unicode_len();
    let ghost zeros_before = s@;
    let mut k: usize = len;
    if (len as u64) < width {
        let mut added: u64 = 0;
        let missing: u64 = width - len as u64;
        while added < missing
            invariant
                added <= missing,
                s@ == zeros_before + Seq::new(added as nat, |i: int| '0'),
            decreases missing - added,
        {
            push_char(s, '0');
            added = added + 1;
            assert(s@ =~= zeros_before + Seq::new(added as nat, |i: int| '0'));
        }
        assert(missing == (width - decimal(n as nat).len()));
    }
    let ghost middle = s@;
    push_str(s, digits.as_str());
    assert(final(s)@ =~= old(s)@ + padded(n as nat, width as nat));
}

/// The moment `seconds` after the Unix epoch, in RFC 3339 in UTC.
pub fn rfc3339(seconds: u64) -> (r: String)
    ensures
        r@ == rfc3339_text(seconds as nat),
{
    let all_days = seconds / 86400;
    let mut days = all_days;
    let mut year: u64 = 1970;
    while days >= days_in_year(year)
        invariant
            days <= all_days,
            1970 <= year <= 1970 + (all_days - days),
            all_days <= u64::MAX / 86400,
            civil_year(all_days as nat, 1970) == civil_year(days as nat, year as nat),
        decreases days,
    {
        days = days - days_in_year(year);
        year = year + 1;
    }
    let mut doy = days;
    let mut month: u64 = 1;
    while month < 12 && doy >= days_in_month(year, month)
        invariant
            1 <= month <= 12,
            doy <= days,
            days < 366,
            civil_year(all_days as nat, 1970) == (year as nat, days as nat),
            civil_month(days as nat, year as nat, 1) == civil_month(doy as nat, year as nat, month as nat),
        decreases 12 - month,
    {
        doy = doy - days_in_month(year, month);
        month = month + 1;
    }
    assert(civil_month(doy as nat, year as nat, month as nat) == (month as nat, doy as nat));
    let rest = seconds % 86400;
    let mut r = String::new();
    push_padded(&mut r, year, 4);
    push_str(&mut r, "-");
    push_padded(&mut r, month, 2);
    push_str(&mut r, "-");
    push_padded(&mut r, doy + 1, 2);
    push_str(&mut r, "T");
    push_padded(&mut r, rest / 3600, 2);
    push_str(&mut r, ":");
    push_padded(&mut r, (rest % 3600) / 60, 2);
    push_str(&mut r, ":");
    push_padded(&mut r, rest % 60, 2);
    push_str(&mut r, "Z");
    assert(r@ =~= rfc3339_text(seconds as nat));
    r
}

/// How long `elapsed` seconds is, in the largest unit that fits, rounded
/// down: `1 minute`, `3 hours`.
pub open spec fn ago_text(elapsed: nat) -> Seq<char> {
    let (n, unit) = if elapsed < 60 {
        (elapsed, "second"@)
    } else if elapsed < 3600 {
        (elapsed / 60, "minute"@)
    } else if elapsed < 86400 {
        (elapsed / 3600, "hour"@)
    } else {
        (elapsed / 86400, "day"@)
    };
    decimal(n) + " "@ + unit + if n == 1 { Seq::empty() } else { "s"@ }
}

/// How long `elapsed` seconds is, for a human.
pub fn ago(elapsed: u64) -> (r: String)
    ensures
        r@ == ago_text(elapsed as nat),
{
    let (n, unit) = if elapsed < 60 {
        (elapsed, "second")
    } else if elapsed < 3600 {
        (elapsed / 60, "minute")
    } else if elapsed < 86400 {
        (elapsed / 3600, "hour")
    } else {
        (elapsed / 86400, "day")
    };
    let mut r = String::new();
    push_decimal(&mut r, n);
    push_str(&mut r, " ");
    push_str(&mut r, unit);
    if n != 1 {
        push_str(&mut r, "s");
    }
    proof {
        reveal_strlit("second");
        reveal_strlit("minute");
        reveal_strlit("hour");
        reveal_strlit("day");
        reveal_strlit("s");
        reveal_strlit(" ");
    }
    assert(r@ =~= ago_text(elapsed as nat));
    r
}

} // verus!
