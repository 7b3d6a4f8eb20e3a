//! The proleptic Gregorian calendar: civil dates from day counts.

use vstd::prelude::*;

verus! {

/// Leap years of the proleptic Gregorian calendar.
pub open spec fn is_leap(y: int) -> bool {
    y % 4 == 0 && (y % 100 != 0 || y % 400 == 0)
}

/// Days in month `m` (1 = January) of year `y`.
pub open spec fn days_in_month(y: int, m: int) -> int {
    if m == 2 {
        if is_leap(y) {
            29
        } else {
            28
        }
    } else if m == 4 || m == 6 || m == 9 || m == 11 {
        30
    } else {
        31
    }
}

/// A real calendar date.
pub open spec fn valid_date(y: int, m: int, d: int) -> bool {
    1 <= m <= 12 && 1 <= d <= days_in_month(y, m)
}

/// Days from 1970-01-01 to the date `y-m-d`.
///
/// Counted in years that begin on March 1, so that February, the month of
/// varying length, closes the year: a year `y` of the calendar contributes its
/// January and February to the shifted year `y - 1`.
pub open spec fn days_from_civil(y: int, m: int, d: int) -> int {
    let sy = if m <= 2 {
        y - 1
    } else {
        y
    };
    let era = sy / 400;
    let yoe = sy - era * 400;
    let mp = if m > 2 {
        m - 3
    } else {
        m + 9
    };
    let doy = (153 * mp + 2) / 5 + d - 1;
    era * 146097 + days_before_year_in_era(yoe) + doy - 719468
}

/// Days from the start of a 400-year era (a March 1) to the start of its
/// shifted year `y`, for `0 <= y < 400`.
pub open spec fn days_before_year_in_era(y: int) -> int {
    365 * y + y / 4 - y / 100
}

/// Length of shifted year `yoe` of an era: 366 when the February that closes
/// it has a leap day.
pub open spec fn shifted_year_len(yoe: int) -> int {
    if (yoe + 1) % 4 == 0 && ((yoe + 1) % 100 != 0 || yoe == 399) {
        366
    } else {
        365
    }
}

proof fn lemma_year_of_era_in_century(doe: int, c: int)
    requires
        0 <= c <= 3,
        36524 * c <= doe < 36524 * c + 36524,
    ensures
        ({
            let yoe = (doe - doe / 1460 + doe / 36524 - doe / 146096) / 365;
            &&& 100 * c <= yoe < 100 * c + 100
            &&& days_before_year_in_era(yoe) <= doe
            &&& doe < days_before_year_in_era(yoe) + shifted_year_len(yoe)
        }),
{
    let q1 = doe / 1460;
    assert(doe / 36524 == c);
    assert(doe / 146096 == 0);
    assert(1460 * q1 <= doe < 1460 * q1 + 1460);
    let t = doe - q1 + c;
    let yoe = t / 365;
    assert(365 * yoe <= t < 365 * yoe + 365);
    let a = yoe / 4;
    let b = yoe / 100;
    assert(4 * a <= yoe < 4 * a + 4);
    assert(100 * b <= yoe < 100 * b + 100);
}

/// The shifted year of an era that a day of the era falls in.
pub proof fn lemma_year_of_era(doe: int)
    requires
        0 <= doe <= 146096,
    ensures
        ({
            let yoe = (doe - doe / 1460 + doe / 36524 - doe / 146096) / 365;
            &&& 0 <= yoe <= 399
            &&& days_before_year_in_era(yoe) <= doe
            &&& doe < days_before_year_in_era(yoe) + shifted_year_len(yoe)
        }),
{
    if doe == 146096 {
        assert(doe / 1460 == 100);
        assert(doe / 36524 == 4);
        assert(doe / 146096 == 1);
    } else {
        let c = doe / 36524;
        assert(0 <= c <= 3);
        lemma_year_of_era_in_century(doe, c);
    }
}


/// Start of shifted month `mp` (0 = March) within its shifted year.
pub open spec fn days_before_month(mp: int) -> int {
    (153 * mp + 2) / 5
}

proof fn lemma_month_of_year(doy: int)
    requires
        0 <= doy <= 365,
    ensures
        ({
            let mp = (5 * doy + 2) / 153;
            &&& 0 <= mp <= 11
            &&& days_before_month(mp) <= doy
            &&& mp < 11 ==> doy < days_before_month(mp + 1)
        }),
{
    let mp = (5 * doy + 2) / 153;
    assert(153 * mp <= 5 * doy + 2 < 153 * mp + 153);
    let lo = (153 * mp + 2) / 5;
    assert(5 * lo <= 153 * mp + 2 < 5 * lo + 5);
    let hi = (153 * mp + 155) / 5;
    assert(5 * hi <= 153 * mp + 155 < 5 * hi + 5);
}

/// Civil date `(year, month, day)` of the day `days` after 1970-01-01.
pub fn civil_from_days(days: i64) -> (r: (i64, u32, u32))
    requires
        days <= i64::MAX - 719468,
    ensures
        valid_date(r.0 as int, r.1 as int, r.2 as int),
        days_from_civil(r.0 as int, r.1 as int, r.2 as int) == days,
{
    let z = days + 719_468;
    let era = z.checked_div_euclid(146_097).unwrap();
    let doe_i = z.checked_rem_euclid(146_097).unwrap();
    assert(z == 146097 * era + doe_i);
    let doe = doe_i as u64;
    let yoe = (doe - doe / 1460 + doe / 36_524 - doe / 146_096) / 365;
    proof {
        lemma_year_of_era(doe as int);
    }
    let doy = doe - (365 * yoe + yoe / 4 - yoe / 100);
    let mp = (5 * doy + 2) / 153;
    proof {
        lemma_month_of_year(doy as int);
    }
    let d = (doy - (153 * mp + 2) / 5 + 1) as u32;
    let m = if mp < 10 {
        (mp + 3) as u32
    } else {
        (mp - 9) as u32
    };
    let y = yoe as i64 + era * 400 + if m <= 2 {
        1i64
    } else {
        0i64
    };
    proof {
        let yi = y as int;
        if m <= 2 {
            vstd::arithmetic::div_mod::lemma_mod_multiples_vanish(100 * era, yoe + 1, 4);
            assert(4 * (100 * era) == 400 * era);
            vstd::arithmetic::div_mod::lemma_mod_multiples_vanish(4 * era, yoe + 1, 100);
            assert(100 * (4 * era) == 400 * era);
            vstd::arithmetic::div_mod::lemma_mod_multiples_vanish(era as int, yoe + 1, 400);
            assert(yi == 400 * era + (yoe + 1));
        }
        let sy = if m <= 2 {
            yi - 1
        } else {
            yi
        };
        assert(sy == yoe + era * 400);
        assert(sy / 400 == era);
    }
    (y, m, d)
}


/// Days from the start of era 0 (0000-03-01) to the start of shifted year
/// `sy`, which runs from March 1 of `sy` to the end of February of `sy + 1`.
pub open spec fn year_start(sy: int) -> int {
    (sy / 400) * 146097 + days_before_year_in_era(sy % 400)
}

proof fn lemma_year_len_is_leap(sy: int)
    ensures
        shifted_year_len(sy % 400) == if is_leap(sy + 1) {
            366int
        } else {
            365int
        },
{
    let yoe = sy % 400;
    let q = sy / 400;
    assert(sy == 400 * q + yoe);
    vstd::arithmetic::div_mod::lemma_mod_multiples_vanish(100 * q, yoe + 1, 4);
    assert(4 * (100 * q) == 400 * q);
    vstd::arithmetic::div_mod::lemma_mod_multiples_vanish(4 * q, yoe + 1, 100);
    assert(100 * (4 * q) == 400 * q);
    vstd::arithmetic::div_mod::lemma_mod_multiples_vanish(q, yoe + 1, 400);
    assert((sy + 1) % 4 == (yoe + 1) % 4);
    assert((sy + 1) % 100 == (yoe + 1) % 100);
    assert((sy + 1) % 400 == (yoe + 1) % 400);
}

/// Shifted year `sy` is followed by shifted year `sy + 1` after its length.
proof fn lemma_year_start_step(sy: int)
    ensures
        year_start(sy + 1) == year_start(sy) + shifted_year_len(sy % 400),
{
    let yoe = sy % 400;
    let q = sy / 400;
    assert(sy == 400 * q + yoe);
    if yoe < 399 {
        assert((sy + 1) / 400 == q);
        assert((sy + 1) % 400 == yoe + 1);
    } else {
        assert((sy + 1) / 400 == q + 1);
        assert((sy + 1) % 400 == 0);
        assert(days_before_year_in_era(399) == 145731);
    }
}

proof fn lemma_year_start_before(a: int, b: int)
    requires
        a < b,
    ensures
        year_start(a) + shifted_year_len(a % 400) <= year_start(b),
    decreases b - a,
{
    lemma_year_start_step(a);
    if a + 1 < b {
        lemma_year_start_before(a + 1, b);
        lemma_year_start_step(a + 1);
    }
}

proof fn lemma_month_starts()
    ensures
        days_before_month(0) == 0,
        days_before_month(1) == 31,
        days_before_month(2) == 61,
        days_before_month(3) == 92,
        days_before_month(4) == 122,
        days_before_month(5) == 153,
        days_before_month(6) == 184,
        days_before_month(7) == 214,
        days_before_month(8) == 245,
        days_before_month(9) == 275,
        days_before_month(10) == 306,
        days_before_month(11) == 337,
{
    assert((153 * 0 + 2) / 5 == 0int) by (nonlinear_arith);
    assert((153 * 1 + 2) / 5 == 31int) by (nonlinear_arith);
    assert((153 * 2 + 2) / 5 == 61int) by (nonlinear_arith);
    assert((153 * 3 + 2) / 5 == 92int) by (nonlinear_arith);
    assert((153 * 4 + 2) / 5 == 122int) by (nonlinear_arith);
    assert((153 * 5 + 2) / 5 == 153int) by (nonlinear_arith);
    assert((153 * 6 + 2) / 5 == 184int) by (nonlinear_arith);
    assert((153 * 7 + 2) / 5 == 214int) by (nonlinear_arith);
    assert((153 * 8 + 2) / 5 == 245int) by (nonlinear_arith);
    assert((153 * 9 + 2) / 5 == 275int) by (nonlinear_arith);
    assert((153 * 10 + 2) / 5 == 306int) by (nonlinear_arith);
    assert((153 * 11 + 2) / 5 == 337int) by (nonlinear_arith);
}

/// The shifted year of a date: January and February belong to the year
/// before.
pub open spec fn shifted_year(y: int, m: int) -> int {
    if m <= 2 {
        y - 1
    } else {
        y
    }
}

/// The shifted month of a date: 0 for March through 11 for February.
pub open spec fn shifted_month(m: int) -> int {
    if m > 2 {
        m - 3
    } else {
        m + 9
    }
}

/// The day count of a date as year start, month start and day.
proof fn lemma_days_from_civil_parts(y: int, m: int, d: int)
    ensures
        days_from_civil(y, m, d) == year_start(shifted_year(y, m)) + days_before_month(
            shifted_month(m),
        ) + d - 1 - 719468,
{
    let sy = shifted_year(y, m);
    assert(sy - (sy / 400) * 400 == sy % 400);
}

/// A date's day falls inside its shifted year.
proof fn lemma_day_in_year(y: int, m: int, d: int)
    requires
        valid_date(y, m, d),
    ensures
        0 <= days_before_month(shifted_month(m)) + d - 1 < shifted_year_len(
            shifted_year(y, m) % 400,
        ),
        forall|m2: int, d2: int|
            valid_date(y, m2, d2) && shifted_month(m) < shifted_month(m2) && shifted_year(y, m)
                == shifted_year(y, m2) ==> days_before_month(shifted_month(m)) + d
                < days_before_month(shifted_month(m2)) + d2,
{
    lemma_month_starts();
    let sy = shifted_year(y, m);
    if m <= 2 {
        lemma_year_len_is_leap(sy);
        assert(sy + 1 == y);
    } else {
        lemma_year_len_is_leap(sy);
    }
}

/// Dates in calendar order have day counts in the same order: the day count
/// is strictly increasing, so it names each date once.
pub proof fn lemma_days_from_civil_increasing(y1: int, m1: int, d1: int, y2: int, m2: int, d2: int)
    requires
        valid_date(y1, m1, d1),
        valid_date(y2, m2, d2),
        y1 < y2 || (y1 == y2 && (m1 < m2 || (m1 == m2 && d1 < d2))),
    ensures
        days_from_civil(y1, m1, d1) < days_from_civil(y2, m2, d2),
{
    lemma_days_from_civil_parts(y1, m1, d1);
    lemma_days_from_civil_parts(y2, m2, d2);
    lemma_day_in_year(y1, m1, d1);
    lemma_day_in_year(y2, m2, d2);
    let s1 = shifted_year(y1, m1);
    let s2 = shifted_year(y2, m2);
    if s1 < s2 {
        lemma_year_start_before(s1, s2);
    } else if s1 == s2 {
        if shifted_month(m1) == shifted_month(m2) {
            assert(m1 == m2);
            assert(y1 == y2);
        } else if shifted_month(m1) > shifted_month(m2) {
            assert(false);
        }
    } else {
        assert(false);
    }
}

/// Two valid dates with one day count are one date.
pub proof fn lemma_days_from_civil_injective(y1: int, m1: int, d1: int, y2: int, m2: int, d2: int)
    requires
        valid_date(y1, m1, d1),
        valid_date(y2, m2, d2),
        days_from_civil(y1, m1, d1) == days_from_civil(y2, m2, d2),
    ensures
        y1 == y2 && m1 == m2 && d1 == d2,
{
    if y1 < y2 || (y1 == y2 && (m1 < m2 || (m1 == m2 && d1 < d2))) {
        lemma_days_from_civil_increasing(y1, m1, d1, y2, m2, d2);
    } else if y2 < y1 || (y1 == y2 && (m2 < m1 || (m1 == m2 && d2 < d1))) {
        lemma_days_from_civil_increasing(y2, m2, d2, y1, m1, d1);
    }
}

} // verus!
