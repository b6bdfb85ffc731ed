//! Calendar conversion of Unix time for display: days since 1970-01-01 to a
//! Gregorian date (closed form, by 400-year eras), and the
//! `YYYY-MM-DD HH:MM` text of a timestamp.

use vstd::prelude::*;
use crate::text::{chars_of, extend_chars, string_of};
use crate::util::{decimal, spec_decimal};

verus! {

pub open spec fn civil_from_days(z: int) -> (int, int, int) {
    let zz = z + 719468;
    let era = zz / 146097;
    let doe = zz % 146097;
    let yoe = (doe - doe / 1460 + doe / 36524 - doe / 146096) / 365;
    let doy = doe - (365 * yoe + yoe / 4 - yoe / 100);
    let mp = (5 * doy + 2) / 153;
    let d = doy - (153 * mp + 2) / 5 + 1;
    let m = if mp < 10 { mp + 3 } else { mp - 9 };
    let y = yoe + era * 400 + (if m <= 2 { 1int } else { 0int });
    (y, m, d)
}

pub open spec fn is_leap(y: int) -> bool {
    y % 4 == 0 && (y % 100 != 0 || y % 400 == 0)
}

pub open spec fn days_in_month(y: int, m: int) -> int {
    if m == 2 {
        if is_leap(y) { 29 } else { 28 }
    } else if m == 4 || m == 6 || m == 9 || m == 11 {
        30
    } else {
        31
    }
}

pub open spec fn next_day(t: (int, int, int)) -> (int, int, int) {
    let (y, m, d) = t;
    if d < days_in_month(y, m) {
        (y, m, d + 1)
    } else if m < 12 {
        (y, m + 1, 1)
    } else {
        (y + 1, 1, 1)
    }
}

/// The first day: 1970-01-01.
pub proof fn lemma_epoch_date()
    ensures
        civil_from_days(0) == (1970int, 1int, 1int),
{
}

/// Every day maps to a valid Gregorian date: a month from 1 to 12 and a day
/// within that month (29 February only in leap years).
pub proof fn lemma_date_valid(z: int)
    requires
        z >= 0,
    ensures
        ({
            let (y, m, d) = civil_from_days(z);
            1 <= m <= 12 && 1 <= d <= days_in_month(y, m) && y >= 1970
        }),
{
}

proof fn lemma_era_steps(doe: int)
    requires
        0 <= doe < 146097,
    ensures
        ({
            let yoe = (doe - doe / 1460 + doe / 36524 - doe / 146096) / 365;
            let doy = doe - (365 * yoe + yoe / 4 - yoe / 100);
            let mp = (5 * doy + 2) / 153;
            &&& 0 <= yoe <= 399
            &&& 0 <= doy <= 365
            &&& 0 <= mp <= 11
            &&& (153 * mp + 2) / 5 <= doy
            &&& doy - (153 * mp + 2) / 5 + 1 <= 31
        }),
{
}

/// `n` in decimal, left-padded with zeros to at least `w` digits.
pub open spec fn padded(n: nat, w: nat) -> Seq<char> {
    let s = spec_decimal(n);
    if s.len() < w {
        Seq::new((w - s.len()) as nat, |i: int| '0') + s
    } else {
        s
    }
}

fn push_padded(out: &mut Vec<char>, n: u64, w: usize)
    ensures
        final(out)@ == old(out)@ + padded(n as nat, w as nat),
{
    let s = decimal(n);
    if s.len() < w {
        let k = w - s.len();
        let ghost start = out@;
        for i in 0..k
            invariant
                out@ == start + Seq::new(i as nat, |j: int| '0'),
        {
            out.push('0');
            assert(out@ =~= start + Seq::new((i + 1) as nat, |j: int| '0'));
        }
        extend_chars(out, &s);
        assert(out@ =~= start + (Seq::new(k as nat, |j: int| '0') + s@));
    } else {
        extend_chars(out, &s);
    }
}

/// Text shown for a timestamp that was never set.
pub const NEVER_TEXT: &'static str = "从未";

/// The display text of a Unix time in seconds: `从未` for zero, else the UTC
/// date and time as `YYYY-MM-DD HH:MM`.
pub open spec fn spec_format_unix(secs: nat) -> Seq<char> {
    if secs == 0 {
        NEVER_TEXT@
    } else {
        let (y, m, d) = civil_from_days((secs / 86400) as int);
        let rem = secs % 86400;
        padded(y as nat, 4) + "-"@ + padded(m as nat, 2) + "-"@ + padded(d as nat, 2) + " "@ + padded(
            rem / 3600,
            2,
        ) + ":"@ + padded((rem % 3600) / 60, 2)
    }
}

/// Formats a Unix time (seconds) as `YYYY-MM-DD HH:MM` (UTC); `从未` for 0.
pub fn format_unix(secs: u64) -> (r: String)
    ensures
        r@ == spec_format_unix(secs as nat),
{
    if secs == 0 {
        return NEVER_TEXT.to_string();
    }
    let days: u64 = secs / 86400;
    let rem: u64 = secs % 86400;
    let h = rem / 3600;
    let mi = (rem % 3600) / 60;
    let z: u64 = days + 719468;
    let era: u64 = z / 146097;
    let doe: u64 = z % 146097;
    proof {
        lemma_era_steps(doe as int);
        lemma_date_valid(days as int);
    }
    let yoe: u64 = (doe - doe / 1460 + doe / 36524 - doe / 146096) / 365;
    let doy: u64 = doe - (365 * yoe + yoe / 4 - yoe / 100);
    let mp: u64 = (5 * doy + 2) / 153;
    let d: u64 = doy - (153 * mp + 2) / 5 + 1;
    let m: u64 = if mp < 10 {
        mp + 3
    } else {
        mp - 9
    };
    let y: u64 = yoe + era * 400 + if m <= 2 {
        1
    } else {
        0
    };
    assert(civil_from_days(days as int) == (y as int, m as int, d as int));
    proof {
        reveal_strlit("-");
        reveal_strlit(" ");
        reveal_strlit(":");
    }
    let mut out: Vec<char> = Vec::new();
    push_padded(&mut out, y, 4);
    out.push('-');
    push_padded(&mut out, m, 2);
    out.push('-');
    push_padded(&mut out, d, 2);
    out.push(' ');
    push_padded(&mut out, h, 2);
    out.push(':');
    push_padded(&mut out, mi, 2);
    assert(out@ =~= spec_format_unix(secs as nat));
    string_of(&out)
}

/// First day of year `y` of an era (years counted from March).
pub open spec fn year_start(y: int) -> int {
    365 * y + y / 4 - y / 100
}

/// Days in year `y` of an era; the last one ends on the era's leap day.
pub open spec fn year_len(y: int) -> int {
    if y == 399 {
        366
    } else {
        year_start(y + 1) - year_start(y)
    }
}

pub open spec fn yoe_of(doe: int) -> int {
    (doe - doe / 1460 + doe / 36524 - doe / 146096) / 365
}

proof fn lemma_yoe(doe: int)
    requires
        0 <= doe < 146097,
    ensures
        0 <= yoe_of(doe) <= 399,
        year_start(yoe_of(doe)) <= doe < year_start(yoe_of(doe)) + year_len(yoe_of(doe)),
{
}

proof fn lemma_yoe_step(doe: int)
    requires
        0 <= doe < 146096,
    ensures
        doe + 1 - year_start(yoe_of(doe)) < year_len(yoe_of(doe)) ==> yoe_of(doe + 1) == yoe_of(doe),
        doe + 1 - year_start(yoe_of(doe)) == year_len(yoe_of(doe)) ==> yoe_of(doe + 1) == yoe_of(doe) + 1
            && doe + 1 == year_start(yoe_of(doe) + 1),
{
    lemma_yoe(doe);
    lemma_yoe(doe + 1);
}

proof fn lemma_year_len_leap(era: int, y: int)
    requires
        0 <= era,
        0 <= y <= 399,
    ensures
        year_len(y) == (if is_leap(y + 400 * era + 1) { 366int } else { 365int }),
{
    let c = y + 400 * era + 1;
    assert(c % 4 == (y + 1) % 4);
    assert(c % 100 == (y + 1) % 100);
    assert(c % 400 == (y + 1) % 400);
}

pub open spec fn month_start(mp: int) -> int {
    (153 * mp + 2) / 5
}

pub open spec fn mp_of(doy: int) -> int {
    (5 * doy + 2) / 153
}

/// The date of day `doy` of year `y` of era `era`.
pub open spec fn date_in_era(era: int, y: int, doy: int) -> (int, int, int) {
    let mp = mp_of(doy);
    let d = doy - month_start(mp) + 1;
    let m = if mp < 10 { mp + 3 } else { mp - 9 };
    (y + era * 400 + (if m <= 2 { 1int } else { 0int }), m, d)
}

proof fn lemma_mp(doy: int)
    requires
        0 <= doy <= 365,
    ensures
        0 <= mp_of(doy) <= 11,
        month_start(mp_of(doy)) <= doy < month_start(mp_of(doy) + 1),
{
}

proof fn lemma_day_step(era: int, y: int, doy: int)
    requires
        0 <= era,
        0 <= y <= 399,
        0 <= doy,
        doy + 1 < year_len(y),
    ensures
        date_in_era(era, y, doy + 1) == next_day(date_in_era(era, y, doy)),
{
    lemma_year_len_leap(era, y);
    lemma_mp(doy);
    lemma_mp(doy + 1);
}

proof fn lemma_year_step(era: int, y: int)
    requires
        0 <= era,
        0 <= y < 399,
    ensures
        date_in_era(era, y + 1, 0) == next_day(date_in_era(era, y, year_len(y) - 1)),
{
    lemma_year_len_leap(era, y);
    lemma_mp(year_len(y) - 1);
}

proof fn lemma_era_step(era: int)
    requires
        0 <= era,
    ensures
        date_in_era(era + 1, 0, 0) == next_day(date_in_era(era, 399, 365)),
{
    lemma_year_len_leap(era, 399);
}

/// Day `z + 1` is the calendar day after day `z`.
pub proof fn lemma_next_day(z: int)
    requires
        z >= 0,
    ensures
        civil_from_days(z + 1) == next_day(civil_from_days(z)),
{
    let zz = z + 719468;
    let era = zz / 146097;
    let doe = zz % 146097;
    lemma_yoe(doe);
    let y = yoe_of(doe);
    let doy = doe - year_start(y);
    assert(civil_from_days(z) == date_in_era(era, y, doy));
    if doe < 146096 {
        assert((zz + 1) / 146097 == era);
        assert((zz + 1) % 146097 == doe + 1);
        lemma_yoe_step(doe);
        if doy + 1 < year_len(y) {
            assert(civil_from_days(z + 1) == date_in_era(era, y, doy + 1));
            lemma_day_step(era, y, doy);
        } else {
            assert(civil_from_days(z + 1) == date_in_era(era, y + 1, 0));
            lemma_year_step(era, y);
        }
    } else {
        assert((zz + 1) / 146097 == era + 1);
        assert((zz + 1) % 146097 == 0);
        assert(y == 399 && doy == 365);
        assert(civil_from_days(z + 1) == date_in_era(era + 1, 0, 0));
        lemma_era_step(era);
    }
}

} // verus!
