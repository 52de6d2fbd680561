//! Calendar arithmetic and timestamp rendering. Timestamps are UTC
//! milliseconds since the epoch; rendering needs the civil date, computed
//! here from first principles.

use vstd::prelude::*;
use crate::text::{push_u64, spec_dec};

verus! {

pub open spec fn spec_is_leap(y: int) -> bool {
    y % 4 == 0 && (y % 100 != 0 || y % 400 == 0)
}

pub open spec fn spec_days_in_year(y: int) -> int {
    if spec_is_leap(y) {
        366
    } else {
        365
    }
}

pub open spec fn spec_days_in_month(y: int, m: int) -> int {
    if m == 2 {
        if spec_is_leap(y) {
            29
        } else {
            28
        }
    } else if m == 4 || m == 6 || m == 9 || m == 11 {
        30
    } else {
        31
    }
}

/// Walk years from `y` until the remaining day count fits inside one.
pub open spec fn spec_year_rem(days: int, y: int) -> (int, int)
    decreases days,
{
    if days < spec_days_in_year(y) {
        (y, days)
    } else {
        spec_year_rem(days - spec_days_in_year(y), y + 1)
    }
}

/// Walk months from `m` until the remaining day count fits inside one.
pub open spec fn spec_month_rem(y: int, days: int, m: int) -> (int, int)
    decreases 12 - m,
{
    if m >= 12 || days < spec_days_in_month(y, m) {
        (m, days)
    } else {
        spec_month_rem(y, days - spec_days_in_month(y, m), m + 1)
    }
}

/// The civil date (year, month, day-of-month) of a day count from the
/// epoch, 1970-01-01 being day zero.
pub open spec fn spec_civil(days: int) -> (int, int, int) {
    let (y, yrem) = spec_year_rem(days, 1970);
    let (m, mrem) = spec_month_rem(y, yrem, 1);
    (y, m, mrem + 1)
}

fn days_in_year(y: u64) -> (r: u64)
    requires
        y >= 1,
    ensures
        r == spec_days_in_year(y as int),
        365 <= r <= 366,
{
    if y % 4 == 0 && (y % 100 != 0 || y % 400 == 0) {
        366
    } else {
        365
    }
}

fn days_in_month(y: u64, m: u64) -> (r: u64)
    requires
        y >= 1,
    ensures
        r == spec_days_in_month(y as int, m as int),
        28 <= r <= 31,
{
    if m == 2 {
        if y % 4 == 0 && (y % 100 != 0 || y % 400 == 0) {
            29
        } else {
            28
        }
    } else if m == 4 || m == 6 || m == 9 || m == 11 {
        30
    } else {
        31
    }
}

/// The civil date of a day count from the epoch.
pub fn civil_from_days(days: u64) -> (r: (u64, u64, u64))
    ensures
        (r.0 as int, r.1 as int, r.2 as int) == spec_civil(days as int),
        1 <= r.1 <= 12,
{
    let mut y: u64 = 1970;
    let mut rem: u64 = days;
    while rem >= days_in_year(y)
        invariant
            1970 <= y,
            rem <= days,
            365 * (y - 1970) <= days - rem,
            spec_year_rem(days as int, 1970) == spec_year_rem(rem as int, y as int),
        decreases rem,
    {
        let diy = days_in_year(y);
        rem = rem - diy;
        y = y + 1;
    }
    let mut m: u64 = 1;
    let ghost yrem = rem;
    while m < 12 && rem >= days_in_month(y, m)
        invariant
            1 <= m <= 12,
            1970 <= y,
            rem <= yrem,
            spec_month_rem(y as int, yrem as int, 1) == spec_month_rem(
                y as int,
                rem as int,
                m as int,
            ),
        decreases 12 - m,
    {
        let dim = days_in_month(y, m);
        rem = rem - dim;
        m = m + 1;
    }
    proof {
        assert(rem as int + 1 <= u64::MAX) by {
            assert(rem <= yrem);
        };
    }
    (y, m, rem + 1)
}

/// A number padded with zeros to two digits.
pub open spec fn spec_pad2(n: nat) -> Seq<char> {
    if n < 10 {
        seq!['0'] + spec_dec(n)
    } else {
        spec_dec(n)
    }
}

/// A number padded with zeros to three digits.
pub open spec fn spec_pad3(n: nat) -> Seq<char> {
    if n < 10 {
        seq!['0', '0'] + spec_dec(n)
    } else if n < 100 {
        seq!['0'] + spec_dec(n)
    } else {
        spec_dec(n)
    }
}

/// A number padded with zeros to four digits.
pub open spec fn spec_pad4(n: nat) -> Seq<char> {
    if n < 10 {
        seq!['0', '0', '0'] + spec_dec(n)
    } else if n < 100 {
        seq!['0', '0'] + spec_dec(n)
    } else if n < 1000 {
        seq!['0'] + spec_dec(n)
    } else {
        spec_dec(n)
    }
}

pub fn push_pad2(s: &mut String, n: u64)
    ensures
        final(s)@ == old(s)@ + spec_pad2(n as nat),
{
    let ghost base = s@;
    if n < 10 {
        s.push('0');
    }
    push_u64(s, n);
    proof {
        if n < 10 {
            assert((base + seq!['0']) + spec_dec(n as nat) =~= base + (seq!['0'] + spec_dec(
                n as nat,
            )));
        }
    }
}

pub fn push_pad3(s: &mut String, n: u64)
    ensures
        final(s)@ == old(s)@ + spec_pad3(n as nat),
{
    let ghost base = s@;
    if n < 10 {
        s.push('0');
        s.push('0');
        proof {
            assert((base + seq!['0']) + seq!['0'] =~= base + seq!['0', '0']);
        }
    } else if n < 100 {
        s.push('0');
    }
    push_u64(s, n);
    proof {
        if n < 10 {
            assert((base + seq!['0', '0']) + spec_dec(n as nat) =~= base + (seq!['0', '0']
                + spec_dec(n as nat)));
        } else if n < 100 {
            assert((base + seq!['0']) + spec_dec(n as nat) =~= base + (seq!['0'] + spec_dec(
                n as nat,
            )));
        }
    }
}

pub fn push_pad4(s: &mut String, n: u64)
    ensures
        final(s)@ == old(s)@ + spec_pad4(n as nat),
{
    let ghost base = s@;
    if n < 10 {
        s.push('0');
        s.push('0');
        s.push('0');
        proof {
            assert(((base + seq!['0']) + seq!['0']) + seq!['0'] =~= base + seq!['0', '0', '0']);
        }
    } else if n < 100 {
        s.push('0');
        s.push('0');
        proof {
            assert((base + seq!['0']) + seq!['0'] =~= base + seq!['0', '0']);
        }
    } else if n < 1000 {
        s.push('0');
    }
    push_u64(s, n);
    proof {
        if n < 10 {
            assert((base + seq!['0', '0', '0']) + spec_dec(n as nat) =~= base + (seq![
                '0',
                '0',
                '0',
            ] + spec_dec(n as nat)));
        } else if n < 100 {
            assert((base + seq!['0', '0']) + spec_dec(n as nat) =~= base + (seq!['0', '0']
                + spec_dec(n as nat)));
        } else if n < 1000 {
            assert((base + seq!['0']) + spec_dec(n as nat) =~= base + (seq!['0'] + spec_dec(
                n as nat,
            )));
        }
    }
}

/// Three-letter month name.
pub open spec fn spec_month_abbr(m: int) -> Seq<char> {
    if m == 1 {
        "Jan"@
    } else if m == 2 {
        "Feb"@
    } else if m == 3 {
        "Mar"@
    } else if m == 4 {
        "Apr"@
    } else if m == 5 {
        "May"@
    } else if m == 6 {
        "Jun"@
    } else if m == 7 {
        "Jul"@
    } else if m == 8 {
        "Aug"@
    } else if m == 9 {
        "Sep"@
    } else if m == 10 {
        "Oct"@
    } else if m == 11 {
        "Nov"@
    } else {
        "Dec"@
    }
}

fn month_abbr(m: u64) -> (r: &'static str)
    ensures
        r@ == spec_month_abbr(m as int),
{
    if m == 1 {
        "Jan"
    } else if m == 2 {
        "Feb"
    } else if m == 3 {
        "Mar"
    } else if m == 4 {
        "Apr"
    } else if m == 5 {
        "May"
    } else if m == 6 {
        "Jun"
    } else if m == 7 {
        "Jul"
    } else if m == 8 {
        "Aug"
    } else if m == 9 {
        "Sep"
    } else if m == 10 {
        "Oct"
    } else if m == 11 {
        "Nov"
    } else {
        "Dec"
    }
}

/// Three-letter weekday name; zero is Sunday.
pub open spec fn spec_weekday_abbr(w: int) -> Seq<char> {
    if w == 0 {
        "Sun"@
    } else if w == 1 {
        "Mon"@
    } else if w == 2 {
        "Tue"@
    } else if w == 3 {
        "Wed"@
    } else if w == 4 {
        "Thu"@
    } else if w == 5 {
        "Fri"@
    } else {
        "Sat"@
    }
}

fn weekday_abbr(w: u64) -> (r: &'static str)
    ensures
        r@ == spec_weekday_abbr(w as int),
{
    if w == 0 {
        "Sun"
    } else if w == 1 {
        "Mon"
    } else if w == 2 {
        "Tue"
    } else if w == 3 {
        "Wed"
    } else if w == 4 {
        "Thu"
    } else if w == 5 {
        "Fri"
    } else {
        "Sat"
    }
}

pub open spec fn ms_per_day() -> int {
    86400000
}

/// ISO 8601 with milliseconds, as S3 XML timestamps are written.
pub open spec fn spec_format_datetime(ms: nat) -> Seq<char> {
    let days = ms / 86400000;
    let c = spec_civil(days as int);
    let rem = ms % 86400000;
    spec_pad4(c.0 as nat) + "-"@ + spec_pad2(c.1 as nat) + "-"@ + spec_pad2(c.2 as nat) + "T"@
        + spec_pad2(rem / 3600000) + ":"@ + spec_pad2((rem / 60000) % 60) + ":"@ + spec_pad2(
        (rem / 1000) % 60,
    ) + "."@ + spec_pad3(rem % 1000) + "Z"@
}

/// RFC 1123, as HTTP date headers are written.
pub open spec fn spec_format_http_date(ms: nat) -> Seq<char> {
    let days = ms / 86400000;
    let c = spec_civil(days as int);
    let rem = ms % 86400000;
    spec_weekday_abbr(((days + 4) % 7) as int) + ", "@ + spec_pad2(c.2 as nat) + " "@
        + spec_month_abbr(c.1) + " "@ + spec_pad4(c.0 as nat) + " "@ + spec_pad2(rem / 3600000)
        + ":"@ + spec_pad2((rem / 60000) % 60) + ":"@ + spec_pad2((rem / 1000) % 60) + " GMT"@
}

/// Render a timestamp for S3 XML documents.
pub fn format_datetime_ms(ms: u64) -> (r: String)
    ensures
        r@ == spec_format_datetime(ms as nat),
{
    let days = ms / 86400000;
    let (y, mo, d) = civil_from_days(days);
    let rem = ms % 86400000;
    let mut s = String::new();
    push_pad4(&mut s, y);
    proof {
        assert(Seq::<char>::empty() + spec_pad4(y as nat) =~= spec_pad4(y as nat));
    }
    s.append("-");
    push_pad2(&mut s, mo);
    s.append("-");
    push_pad2(&mut s, d);
    s.append("T");
    push_pad2(&mut s, rem / 3600000);
    s.append(":");
    push_pad2(&mut s, (rem / 60000) % 60);
    s.append(":");
    push_pad2(&mut s, (rem / 1000) % 60);
    s.append(".");
    push_pad3(&mut s, rem % 1000);
    s.append("Z");
    s
}

/// Render a timestamp for HTTP date headers.
pub fn format_http_date(ms: u64) -> (r: String)
    ensures
        r@ == spec_format_http_date(ms as nat),
{
    let days = ms / 86400000;
    let (y, mo, d) = civil_from_days(days);
    let rem = ms % 86400000;
    let mut s = String::new();
    s.append(weekday_abbr((days + 4) % 7));
    proof {
        assert(Seq::<char>::empty() + spec_weekday_abbr(((days + 4) % 7) as int)
            =~= spec_weekday_abbr(((days + 4) % 7) as int));
    }
    s.append(", ");
    push_pad2(&mut s, d);
    s.append(" ");
    s.append(month_abbr(mo));
    s.append(" ");
    push_pad4(&mut s, y);
    s.append(" ");
    push_pad2(&mut s, rem / 3600000);
    s.append(":");
    push_pad2(&mut s, (rem / 60000) % 60);
    s.append(":");
    push_pad2(&mut s, (rem / 1000) % 60);
    s.append(" GMT");
    s
}

} // verus!
