//! The proleptic Gregorian calendar: civil dates and day numbers counted from 1970-01-01.

use vstd::prelude::*;

verus! {

/// Whether a year has a 29th of February.
pub open spec fn is_leap(y: int) -> bool {
    y % 4 == 0 && (y % 100 != 0 || y % 400 == 0)
}

/// The number of days in a year.
pub open spec fn year_length(y: int) -> int {
    if is_leap(y) {
        366
    } else {
        365
    }
}

/// The number of days in a month.
pub open spec fn month_length(y: int, m: int) -> int {
    if m == 2 {
        if is_leap(y) {
            29
        } else {
            28
        }
    } else if m == 4 || m == 6 || m == 9 || m == 11 {
        30
    } else {
        31
    }
}

/// Whether a year, month and day name a day of the calendar.
pub open spec fn is_date(y: int, m: int, d: int) -> bool {
    1 <= m <= 12 && 1 <= d <= month_length(y, m)
}

/// The days from the first of January of year 1 to the first of January of year `y`.
pub open spec fn days_before_year(y: int) -> int {
    365 * (y - 1) + (y - 1) / 4 - (y - 1) / 100 + (y - 1) / 400
}

/// The days from the first of January to the first of month `m` of the same year.
pub open spec fn days_before_month(y: int, m: int) -> int
    decreases m,
{
    if m <= 1 {
        0
    } else {
        days_before_month(y, m - 1) + month_length(y, m - 1)
    }
}

/// The days from 1970-01-01 to a civil date. A day past the end of its month counts on into the
/// next one.
pub open spec fn day_number(y: int, m: int, d: int) -> int {
    days_before_year(y) + days_before_month(y, m) + (d - 1) - days_before_year(1970)
}

/// The largest year, in either direction, that the day count of a date is computed for.
pub const YEAR_LIMIT: i64 = 25_000_000_000_000_000;

/// The first of January comes one year's length later from one year to the next.
pub proof fn law_years_follow_each_other(y: int)
    ensures
        days_before_year(y + 1) == days_before_year(y) + year_length(y),
{
}

/// The day count of each month, written out.
proof fn lemma_months(y: int)
    ensures
        days_before_month(y, 1) == 0,
        days_before_month(y, 2) == 31,
        days_before_month(y, 3) == year_length(y) - 306,
        days_before_month(y, 4) == year_length(y) - 275,
        days_before_month(y, 5) == year_length(y) - 245,
        days_before_month(y, 6) == year_length(y) - 214,
        days_before_month(y, 7) == year_length(y) - 184,
        days_before_month(y, 8) == year_length(y) - 153,
        days_before_month(y, 9) == year_length(y) - 122,
        days_before_month(y, 10) == year_length(y) - 92,
        days_before_month(y, 11) == year_length(y) - 61,
        days_before_month(y, 12) == year_length(y) - 31,
{
    reveal_with_fuel(days_before_month, 13);
}

/// Days from the Unix epoch (1970-01-01) to the given civil date. Works for any proleptic
/// Gregorian date.
pub fn days_from_civil(y: i64, m: u32, d: u32) -> (r: i64)
    requires
        -YEAR_LIMIT <= y <= YEAR_LIMIT,
        1 <= m <= 12,
        1 <= d <= 31,
    ensures
        r == day_number(y as int, m as int, d as int),
{
    let month: i64 = m as i64;
    let day: i64 = d as i64;
    let year: i64 = if month <= 2 {
        y - 1
    } else {
        y
    };
    let era: i64 = if year >= 0 {
        year / 400
    } else {
        (year - 399) / 400
    };
    assert(era == (year as int) / 400);
    let yoe: i64 = year - era * 400;
    let from_march: i64 = if month > 2 {
        month - 3
    } else {
        month + 9
    };
    let doy: i64 = (153 * from_march + 2) / 5 + day - 1;
    let doe: i64 = yoe * 365 + yoe / 4 - yoe / 100 + doy;
    proof {
        lemma_months(y as int);
        law_years_follow_each_other(y as int);
        let p = year as int;
        assert(p / 4 == era * 100 + yoe / 4);
        assert(p / 100 == era * 4 + yoe / 100);
        assert(days_before_year(p + 1) == era * 146_097 + yoe * 365 + yoe / 4 - yoe / 100);
        assert(days_before_year(1970) == 719_162);
    }
    era * 146_097 + doe - 719_468
}

/// The year of a 400-year era from the day of the era, counting years from the first of March.
proof fn lemma_year_of_era(doe: int, yoe: int)
    requires
        0 <= doe < 146_097,
        yoe == (doe - doe / 1460 + doe / 36_524 - doe / 146_096) / 365,
    ensures
        0 <= yoe < 400,
        365 * yoe + yoe / 4 - yoe / 100 <= doe,
        doe - (365 * yoe + yoe / 4 - yoe / 100) <= 365,
        doe - (365 * yoe + yoe / 4 - yoe / 100) == 365 ==> is_leap(yoe + 1),
{
    let c = doe / 36_524;
    let r = doe - 36_524 * c;
    if c == 4 {
        assert(doe == 146_096);
    } else {
        let q = r / 1461;
        assert(0 <= q <= 24);
        assert(0 <= c <= 3);
    }
}

/// The month of a year that starts on the first of March, from the day of the year.
proof fn lemma_month_of_year(doy: int, mp: int)
    requires
        0 <= doy <= 365,
        mp == (5 * doy + 2) / 153,
    ensures
        0 <= mp <= 11,
        (153 * mp + 2) / 5 <= doy,
        mp == 0 || mp == 2 || mp == 4 || mp == 5 || mp == 7 || mp == 9 || mp == 10 ==> doy - (153
            * mp + 2) / 5 <= 30,
        mp == 1 || mp == 3 || mp == 6 || mp == 8 ==> doy - (153 * mp + 2) / 5 <= 29,
        mp == 11 ==> doy - (153 * mp + 2) / 5 <= 28,
{
}

/// The day before the first of March of year `p`, where `p` is year `yoe` of an era.
proof fn lemma_march_of_era(era: int, yoe: int, p: int)
    requires
        0 <= yoe < 400,
        p == era * 400 + yoe,
    ensures
        is_leap(p + 1) == is_leap(yoe + 1),
        days_before_year(p + 1) == era * 146_097 + yoe * 365 + yoe / 4 - yoe / 100,
{
    assert(p / 4 == era * 100 + yoe / 4);
    assert(p / 100 == era * 4 + yoe / 100);
    assert(p / 400 == era);
    assert((p + 1) % 4 == (yoe + 1) % 4);
    assert((p + 1) % 100 == (yoe + 1) % 100);
    assert((p + 1) % 400 == (yoe + 1) % 400);
}

/// The date in the era that starts on the first of March of year `400 * era`, on day `doe` of it.
#[verifier::spinoff_prover]
proof fn lemma_date_of_era(era: int, doe: int, yoe: int, doy: int, mp: int)
    requires
        0 <= doe < 146_097,
        yoe == (doe - doe / 1460 + doe / 36_524 - doe / 146_096) / 365,
        doy == doe - (365 * yoe + yoe / 4 - yoe / 100),
        mp == (5 * doy + 2) / 153,
    ensures
        0 <= yoe < 400,
        0 <= doy <= 365,
        0 <= mp <= 11,
        ({
            let m = if mp < 10 {
                mp + 3
            } else {
                mp - 9
            };
            let d = doy - (153 * mp + 2) / 5 + 1;
            let y = era * 400 + yoe + if m <= 2 {
                1int
            } else {
                0
            };
            is_date(y, m, d) && day_number(y, m, d) == era * 146_097 + doe - 719_468
        }),
{
    lemma_year_of_era(doe, yoe);
    lemma_month_of_year(doy, mp);
    let p = era * 400 + yoe;
    lemma_march_of_era(era, yoe, p);
    assert(days_before_year(1970) == 719_162);
    let start = (153 * mp + 2) / 5;
    if mp < 10 {
        lemma_months(p);
        law_years_follow_each_other(p);
        assert(days_before_month(p, mp + 3) == year_length(p) - 306 + start);
    } else {
        lemma_months(p + 1);
        assert(days_before_month(p + 1, mp - 9) == start - 306);
        if mp == 11 && doy - start == 28 {
            assert(doy == 365);
        }
    }
}

/// The civil date `(year, month, day)` that lies `z` days after 1970-01-01.
pub fn civil_from_days(z: i64) -> (r: (i64, u32, u32))
    requires
        z <= i64::MAX - 719_468,
    ensures
        is_date(r.0 as int, r.1 as int, r.2 as int),
        day_number(r.0 as int, r.1 as int, r.2 as int) == z,
{
    let shifted: i64 = z + 719_468;
    let era: i64 = if shifted >= 0 {
        shifted / 146_097
    } else {
        -((-(shifted + 1)) / 146_097) - 1
    };
    assert(era == (shifted as int) / 146_097);
    let doe: i64 = shifted - era * 146_097;
    assert(0 <= doe < 146_097);
    let yoe: i64 = (doe - doe / 1460 + doe / 36_524 - doe / 146_096) / 365;
    proof {
        lemma_year_of_era(doe as int, yoe as int);
    }
    let doy: i64 = doe - (365 * yoe + yoe / 4 - yoe / 100);
    let mp: i64 = (5 * doy + 2) / 153;
    proof {
        lemma_date_of_era(era as int, doe as int, yoe as int, doy as int, mp as int);
    }
    let d: i64 = doy - (153 * mp + 2) / 5 + 1;
    let m: i64 = if mp < 10 {
        mp + 3
    } else {
        mp - 9
    };
    let y: i64 = yoe + era * 400;
    let year: i64 = if m <= 2 {
        y + 1
    } else {
        y
    };
    (year, m as u32, d as u32)
}

/// A later date has a larger day number.
proof fn lemma_day_number_order(y1: int, m1: int, d1: int, y2: int, m2: int, d2: int)
    requires
        is_date(y1, m1, d1),
        is_date(y2, m2, d2),
        y1 < y2 || (y1 == y2 && (m1 < m2 || (m1 == m2 && d1 < d2))),
    ensures
        day_number(y1, m1, d1) < day_number(y2, m2, d2),
{
    lemma_months(y1);
    lemma_months(y2);
    if y1 < y2 {
        law_years_follow_each_other(y1);
        assert(days_before_year(y1 + 1) <= days_before_year(y2));
    }
}

/// Two dates with one day number are the same date.
pub proof fn law_day_number_injective(y1: int, m1: int, d1: int, y2: int, m2: int, d2: int)
    requires
        is_date(y1, m1, d1),
        is_date(y2, m2, d2),
        day_number(y1, m1, d1) == day_number(y2, m2, d2),
    ensures
        y1 == y2 && m1 == m2 && d1 == d2,
{
    if y1 < y2 || (y1 == y2 && (m1 < m2 || (m1 == m2 && d1 < d2))) {
        lemma_day_number_order(y1, m1, d1, y2, m2, d2);
    } else if y2 < y1 || (y1 == y2 && (m2 < m1 || (m1 == m2 && d2 < d1))) {
        lemma_day_number_order(y2, m2, d2, y1, m1, d1);
    }
}

/// The civil date `(year, month, day)` on a day counted from 1970-01-01.
pub open spec fn date_on(z: int) -> (int, int, int) {
    choose|t: (int, int, int)| is_date(t.0, t.1, t.2) && #[trigger] day_number(t.0, t.1, t.2) == z
}

/// Every day has exactly one civil date.
pub proof fn law_date_on(z: int)
    ensures
        is_date(date_on(z).0, date_on(z).1, date_on(z).2),
        day_number(date_on(z).0, date_on(z).1, date_on(z).2) == z,
        forall|y: int, m: int, d: int|
            is_date(y, m, d) && #[trigger] day_number(y, m, d) == z ==> date_on(z) == (y, m, d),
{
    let shifted = z + 719_468;
    let era = shifted / 146_097;
    let doe = shifted - era * 146_097;
    let yoe = (doe - doe / 1460 + doe / 36_524 - doe / 146_096) / 365;
    let doy = doe - (365 * yoe + yoe / 4 - yoe / 100);
    let mp = (5 * doy + 2) / 153;
    lemma_date_of_era(era, doe, yoe, doy, mp);
    let m = if mp < 10 {
        mp + 3
    } else {
        mp - 9
    };
    let d = doy - (153 * mp + 2) / 5 + 1;
    let y = era * 400 + yoe + if m <= 2 {
        1int
    } else {
        0
    };
    let t = (y, m, d);
    assert(is_date(t.0, t.1, t.2) && day_number(t.0, t.1, t.2) == z);
    let found = date_on(z);
    assert forall|y: int, m: int, d: int|
        is_date(y, m, d) && #[trigger] day_number(y, m, d) == z implies found == (y, m, d) by {
        law_day_number_injective(found.0, found.1, found.2, y, m, d);
    }
}

/// Days are counted from 1970-01-01, one for each day of the calendar: the next day of a month is
/// one later, the first of a month comes after the 28, 29, 30 or 31 days of the month before it,
/// and the first of January after the twelve months of the year before it. February has 29 days
/// in every fourth year but the full centuries, and in every fourth century.
pub proof fn law_days_are_counted_one_by_one(y: int, m: int, d: int)
    ensures
        day_number(1970, 1, 1) == 0,
        day_number(y, m, d + 1) == day_number(y, m, d) + 1,
        m == 1 || m == 3 || m == 5 || m == 7 || m == 8 || m == 10 ==> day_number(y, m + 1, 1)
            == day_number(y, m, 1) + 31,
        m == 4 || m == 6 || m == 9 || m == 11 ==> day_number(y, m + 1, 1) == day_number(y, m, 1)
            + 30,
        m == 2 && (y % 400 == 0 || (y % 4 == 0 && y % 100 != 0)) ==> day_number(y, 3, 1)
            == day_number(y, 2, 1) + 29,
        m == 2 && !(y % 400 == 0 || (y % 4 == 0 && y % 100 != 0)) ==> day_number(y, 3, 1)
            == day_number(y, 2, 1) + 28,
        day_number(y + 1, 1, 1) == day_number(y, 12, 1) + 31,
{
    lemma_months(y);
    lemma_months(y + 1);
    lemma_months(1970);
    law_years_follow_each_other(y);
}

/// A later date has a larger day number.
pub proof fn law_later_dates_have_larger_numbers(
    y1: int,
    m1: int,
    d1: int,
    y2: int,
    m2: int,
    d2: int,
)
    requires
        is_date(y1, m1, d1),
        is_date(y2, m2, d2),
        y1 < y2 || (y1 == y2 && (m1 < m2 || (m1 == m2 && d1 < d2))),
    ensures
        day_number(y1, m1, d1) < day_number(y2, m2, d2),
{
    lemma_day_number_order(y1, m1, d1, y2, m2, d2);
}

/// A year differs from zero by less than the days from 1970 do.
pub proof fn lemma_year_bound(z: int, y: int, m: int, d: int)
    requires
        is_date(y, m, d),
        day_number(y, m, d) == z,
    ensures
        z >= 0 ==> 0 <= y <= z + 1971,
        z < 0 ==> z - 1 <= y <= 1971,
{
    lemma_months(y);
    assert(days_before_year(1970) == 719_162);
}

} // verus!
