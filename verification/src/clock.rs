//! Wall-clock timestamps, written as RFC 3339 UTC (`YYYY-MM-DDTHH:MM:SSZ`).

use vstd::prelude::*;

use crate::text::{decimal, decimal_string, push_str, char_count};

verus! {

/// Seconds since the Unix epoch by the system clock (std `SystemTime::now`);
/// `None` when the clock stands before the epoch.
#[verifier::external_body]
fn unix_seconds() -> (secs: Option<u64>) {
    match std::time::SystemTime::now().duration_since(std::time::UNIX_EPOCH) {
        Ok(d) => Some(d.as_secs()),
        Err(_) => None,
    }
}

pub open spec fn is_leap(y: nat) -> bool {
    (y % 4 == 0 && y % 100 != 0) || y % 400 == 0
}

pub open spec fn year_length(y: nat) -> nat {
    if is_leap(y) {
        366
    } else {
        365
    }
}

pub open spec fn month_length(y: nat, m: nat) -> nat {
    if m == 2 {
        if is_leap(y) {
            29
        } else {
            28
        }
    } else if m == 4 || m == 6 || m == 9 || m == 11 {
        30
    } else {
        31
    }
}

/// The year that day `days` (counted from 1 January of year `y`) falls in,
/// and the day's 0-based number within that year.
pub open spec fn year_of_day(days: nat, y: nat) -> (nat, nat)
    decreases days,
{
    if days < year_length(y) {
        (y, days)
    } else {
        year_of_day((days - year_length(y)) as nat, y + 1)
    }
}

/// The month (from `m`) and 0-based day of month for 0-based day `d` of year `y`.
pub open spec fn month_of_day(y: nat, d: nat, m: nat) -> (nat, nat)
    decreases 12 - m,
{
    if m >= 12 || d < month_length(y, m) {
        (m, d)
    } else {
        month_of_day(y, (d - month_length(y, m)) as nat, m + 1)
    }
}

/// `n` in decimal, left-padded with zeros to at least `width` characters.
pub open spec fn padded(n: nat, width: nat) -> Seq<char> {
    let d = decimal(n);
    if d.len() >= width {
        d
    } else {
        Seq::new((width - d.len()) as nat, |i: int| '0') + d
    }
}

/// The RFC 3339 UTC text of `secs` seconds after the Unix epoch.
pub open spec fn rfc3339_text(secs: nat) -> Seq<char> {
    let days = secs / 86400;
    let rest = secs % 86400;
    let yd = year_of_day(days, 1970);
    let md = month_of_day(yd.0, yd.1, 1);
    padded(yd.0, 4) + seq!['-'] + padded(md.0, 2) + seq!['-'] + padded(md.1 + 1, 2) + seq!['T']
        + padded(rest / 3600, 2) + seq![':'] + padded((rest % 3600) / 60, 2) + seq![':'] + padded(
        rest % 60,
        2,
    ) + seq!['Z']
}

fn leap(y: u64) -> (b: bool)
    ensures
        b == is_leap(y as nat),
{
    (y % 4 == 0 && y % 100 != 0) || y % 400 == 0
}

fn year_len(y: u64) -> (n: u64)
    ensures
        n == year_length(y as nat),
{
    if leap(y) {
        366
    } else {
        365
    }
}

fn month_len(y: u64, m: u64) -> (n: u64)
    ensures
        n == month_length(y as nat, m as nat),
{
    if m == 2 {
        if leap(y) {
            29
        } else {
            28
        }
    } else if m == 4 || m == 6 || m == 9 || m == 11 {
        30
    } else {
        31
    }
}

/// Appends `n` in decimal, left-padded with zeros to `width` characters.
fn push_padded(out: &mut String, n: u64, width: usize)
    ensures
        final(out)@ == old(out)@ + padded(n as nat, width as nat),
{
    let digits = decimal_string(n);
    let len = char_count(digits.as_str());
    let ghost zeros_before = out@;
    if len < width {
        let mut k: usize = 0;
        while k < width - len
            invariant
                len < width,
                k <= width - len,
                out@ == zeros_before + Seq::new(k as nat, |i: int| '0'),
            decreases width - len - k,
        {
            push_str(out, "0");
            proof {
                reveal_strlit("0");
            }
            assert(zeros_before + Seq::new(k as nat, |i: int| '0') + "0"@ =~= zeros_before
                + Seq::new((k + 1) as nat, |i: int| '0'));
            k = k + 1;
        }
    }
    push_str(out, digits.as_str());
    assert(final(out)@ =~= old(out)@ + padded(n as nat, width as nat));
}

proof fn lemma_year_of_day_bound(days: nat, y: nat)
    ensures
        year_of_day(days, y).0 <= y + days,
        year_of_day(days, y).1 < year_length(year_of_day(days, y).0),
    decreases days,
{
    if days >= year_length(y) {
        lemma_year_of_day_bound((days - year_length(y)) as nat, y + 1);
    }
}

/// RFC 3339 UTC text for `secs` seconds after the Unix epoch.
pub fn rfc3339(secs: u64) -> (r: String)
    ensures
        r@ == rfc3339_text(secs as nat),
{
    let days = secs / 86400;
    let rest = secs % 86400;
    let mut y: u64 = 1970;
    let mut d: u64 = days;
    proof {
        lemma_year_of_day_bound(days as nat, 1970);
    }
    while d >= year_len(y)
        invariant
            year_of_day(d as nat, y as nat) == year_of_day(days as nat, 1970),
            y + d <= 1970 + days,
            days <= u64::MAX / 86400,
        decreases d,
    {
        d = d - year_len(y);
        y = y + 1;
    }
    let mut m: u64 = 1;
    while m < 12 && d >= month_len(y, m)
        invariant
            1 <= m <= 12,
            month_of_day(y as nat, d as nat, m as nat) == month_of_day(
                year_of_day(days as nat, 1970).0,
                year_of_day(days as nat, 1970).1,
                1,
            ),
            d < 366,
        decreases 12 - m,
    {
        d = d - month_len(y, m);
        m = m + 1;
    }
    let mut out = String::new();
    push_padded(&mut out, y, 4);
    push_str(&mut out, "-");
    push_padded(&mut out, m, 2);
    push_str(&mut out, "-");
    push_padded(&mut out, d + 1, 2);
    push_str(&mut out, "T");
    push_padded(&mut out, rest / 3600, 2);
    push_str(&mut out, ":");
    push_padded(&mut out, (rest % 3600) / 60, 2);
    push_str(&mut out, ":");
    push_padded(&mut out, rest % 60, 2);
    push_str(&mut out, "Z");
    proof {
        reveal_strlit("-");
        reveal_strlit("T");
        reveal_strlit(":");
        reveal_strlit("Z");
    }
    assert(out@ =~= rfc3339_text(secs as nat));
    out
}

/// The current time as RFC 3339 UTC text; the epoch itself when the system
/// clock stands before it.
pub fn timestamp_now() -> (r: String)
    ensures
        exists|secs: nat| r@ == rfc3339_text(secs),
{
    let secs = match unix_seconds() {
        Some(s) => s,
        None => 0,
    };
    rfc3339(secs)
}

} // verus!
