//! Times as the journal writes them: ISO 8601 in UTC, to the second,
//! from seconds since the Unix epoch. Reading the clock is the app's.

use vstd::prelude::*;

use crate::strings::{decimal, decimal_string};

verus! {

broadcast use vstd::string::group_string_axioms;

/// Whether `y` is a leap year of the Gregorian calendar.
pub open spec fn leap(y: int) -> bool {
    (y % 4 == 0 && y % 100 != 0) || y % 400 == 0
}

/// The days of year `y`.
pub open spec fn year_days(y: int) -> int {
    if leap(y) {
        366
    } else {
        365
    }
}

/// The days of month `m` (1–12) of year `y`.
pub open spec fn month_days(y: int, m: int) -> int {
    if m == 2 {
        if leap(y) {
            29
        } else {
            28
        }
    } else if m == 4 || m == 6 || m == 9 || m == 11 {
        30
    } else {
        31
    }
}

/// Days from 1970-01-01 to the first of January of `y`.
pub open spec fn days_to_year(y: int) -> int
    decreases y - 1970,
{
    if y <= 1970 {
        0
    } else {
        days_to_year(y - 1) + year_days(y - 1)
    }
}

/// Days from the first of January of `y` to the first of month `m`.
pub open spec fn days_to_month(y: int, m: int) -> int
    decreases m,
{
    if m <= 1 {
        0
    } else {
        days_to_month(y, m - 1) + month_days(y, m - 1)
    }
}

/// Whether day `days` after 1970-01-01 is the date `y`-`m`-`d`.
pub open spec fn is_date_of(days: int, y: int, m: int, d: int) -> bool {
    y >= 1970 && 1 <= m <= 12 && 1 <= d <= month_days(y, m) && days == days_to_year(y) + days_to_month(y, m) + d
        - 1
}

/// `n` in decimal, with zeros in front up to `width` digits.
pub open spec fn padded(n: nat, width: nat) -> Seq<char> {
    let digits = decimal(n);
    if digits.len() >= width {
        digits
    } else {
        Seq::new((width - digits.len()) as nat, |i: int| '0') + digits
    }
}

/// `YYYY-MM-DDTHH:MM:SSZ` for a date and a time of day.
pub open spec fn iso8601_text(y: nat, m: nat, d: nat, secs_of_day: nat) -> Seq<char> {
    padded(y, 4) + "-"@ + padded(m, 2) + "-"@ + padded(d, 2) + "T"@ + padded(secs_of_day / 3600, 2) + ":"@
        + padded((secs_of_day % 3600) / 60, 2) + ":"@ + padded(secs_of_day % 60, 2) + "Z"@
}

/// Whether `t` is the ISO 8601 text of the UTC time `secs` seconds after the epoch.
pub open spec fn is_utc_time_of(secs: nat, t: Seq<char>) -> bool {
    exists|y: nat, m: nat, d: nat|
        #![trigger is_date_of((secs / 86400) as int, y as int, m as int, d as int)]
        is_date_of((secs / 86400) as int, y as int, m as int, d as int) && t == iso8601_text(y, m, d, secs % 86400)
}

/// Whether `t` is the ISO 8601 text of some UTC time since the epoch.
pub open spec fn is_utc_time(t: Seq<char>) -> bool {
    exists|secs: nat| #[trigger] is_utc_time_of(secs, t)
}

fn pad(n: u64, width: usize) -> (r: String)
    requires
        width <= 4,
    ensures
        r@ == padded(n as nat, width as nat),
{
    let digits = decimal_string(n);
    let len = crate::strings::to_chars(digits.as_str()).len();
    if len >= width {
        return digits;
    }
    let mut r = String::new();
    let mut k: usize = 0;
    while k < width - len
        invariant
            k <= width - len,
            len < width,
            r@ == Seq::new(k as nat, |i: int| '0'),
        decreases width - len - k,
    {
        crate::strings::push_char(&mut r, '0');
        proof {
            assert(r@ =~= Seq::new((k + 1) as nat, |i: int| '0'));
        }
        k = k + 1;
    }
    r.append(digits.as_str());
    r
}

/// The UTC time `secs` seconds after the Unix epoch, as ISO 8601:
/// `YYYY-MM-DDTHH:MM:SSZ`.
pub fn iso8601(secs: u64) -> (r: String)
    ensures
        is_utc_time_of(secs as nat, r@),
        is_utc_time(r@),
{
    let total: u64 = secs / 86400;
    let mut days: u64 = total;
    let mut y: u64 = 1970;
    loop
        invariant
            y >= 1970,
            total == secs / 86400,
            total <= u64::MAX / 86400,
            days <= total,
            days_to_year(y as int) + days == total,
            y - 1970 <= days_to_year(y as int),
        ensures
            y >= 1970,
            days_to_year(y as int) + days == total,
            days < year_days(y as int),
        decreases days,
    {
        let yd: u64 = if (y % 4 == 0 && y % 100 != 0) || y % 400 == 0 {
            366
        } else {
            365
        };
        assert(yd == year_days(y as int));
        if days < yd {
            break;
        }
        days = days - yd;
        proof {
            assert(days_to_year((y + 1) as int) == days_to_year(y as int) + year_days(y as int));
        }
        y = y + 1;
    }
    let leap_year = (y % 4 == 0 && y % 100 != 0) || y % 400 == 0;
    assert(leap_year == leap(y as int));
    let mut m: u64 = 1;
    proof {
        reveal_with_fuel(days_to_month, 13);
        assert(days_to_month(y as int, 13) == year_days(y as int));
    }
    loop
        invariant
            1 <= m <= 12,
            leap_year == leap(y as int),
            days_to_month(y as int, m as int) + days < year_days(y as int),
            days_to_month(y as int, 13) == year_days(y as int),
            forall|k: int| 1 <= k <= 12 ==> days_to_month(y as int, k + 1) == days_to_month(y as int, k) + month_days(
                y as int,
                k,
            ),
            days_to_year(y as int) + days_to_month(y as int, m as int) + days == total,
        ensures
            1 <= m <= 12,
            days < month_days(y as int, m as int),
            days_to_year(y as int) + days_to_month(y as int, m as int) + days == total,
        decreases 12 - m,
    {
        let md: u64 = if m == 2 {
            if leap_year {
                29
            } else {
                28
            }
        } else if m == 4 || m == 6 || m == 9 || m == 11 {
            30
        } else {
            31
        };
        assert(md == month_days(y as int, m as int));
        if days < md {
            break;
        }
        proof {
            assert(days_to_month(y as int, m + 1) == days_to_month(y as int, m as int) + md);
            if m == 12 {
                assert(false);
            }
        }
        days = days - md;
        m = m + 1;
    }
    let of_day = secs % 86400;
    let mut r = pad(y, 4);
    r.append("-");
    r.append(pad(m, 2).as_str());
    r.append("-");
    r.append(pad(days + 1, 2).as_str());
    r.append("T");
    r.append(pad(of_day / 3600, 2).as_str());
    r.append(":");
    r.append(pad((of_day % 3600) / 60, 2).as_str());
    r.append(":");
    r.append(pad(of_day % 60, 2).as_str());
    r.append("Z");
    proof {
        assert(is_date_of(total as int, y as int, m as int, (days + 1) as int));
        assert(r@ == iso8601_text(y as nat, m as nat, (days + 1) as nat, (secs % 86400) as nat));
        assert(is_utc_time_of(secs as nat, r@));
    }
    r
}

} // verus!
